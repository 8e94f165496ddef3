//! Pixel checks of rendered slides: how far two renderings of the same
//! slide differ, and whether a rendering shows the expected background and
//! text.
use vstd::prelude::*;
use crate::text::{append_chars, append_str, chars_of, decimal, decimal_chars, owned, string_of};

verus! {

/// How two renderings compare.
#[derive(Clone, Copy, Debug, PartialEq, Eq, Structural)]
pub struct PixelAgreement {
    pub pixels: u64,
    pub differing_pixels: u64,
    pub max_channel_delta: u8,
}

pub open spec fn abs_diff(a: u8, b: u8) -> u8 {
    if a >= b { (a - b) as u8 } else { (b - a) as u8 }
}

pub open spec fn max_u8(a: u8, b: u8) -> u8 {
    if a >= b { a } else { b }
}

/// The largest channel difference of the pixels at `i` and `j`.
pub open spec fn pixel_delta(ours: Seq<u8>, i: int, theirs: Seq<u8>, j: int) -> u8 {
    max_u8(
        max_u8(abs_diff(ours[i], theirs[j]), abs_diff(ours[i + 1], theirs[j + 1])),
        max_u8(abs_diff(ours[i + 2], theirs[j + 2]), abs_diff(ours[i + 3], theirs[j + 3])),
    )
}

/// The comparison of the first `n` pixels, row by row, of images `width`
/// pixels wide whose rows lie `our_stride` and `their_stride` bytes apart.
pub open spec fn agreement_upto(ours: Seq<u8>, our_stride: int, theirs: Seq<u8>, their_stride: int, width: int, n: nat) -> PixelAgreement
    decreases n,
{
    if n == 0 || width <= 0 {
        PixelAgreement { pixels: 0, differing_pixels: 0, max_channel_delta: 0 }
    } else {
        let prev = agreement_upto(ours, our_stride, theirs, their_stride, width, (n - 1) as nat);
        let p = n - 1;
        let y = p / width;
        let x = p % width;
        let d = pixel_delta(ours, y * our_stride + x * 4, theirs, y * their_stride + x * 4);
        PixelAgreement {
            pixels: (prev.pixels + 1) as u64,
            differing_pixels: (prev.differing_pixels + if d != 0 { 1int } else { 0int }) as u64,
            max_channel_delta: max_u8(prev.max_channel_delta, d),
        }
    }
}

fn diff(a: u8, b: u8) -> (r: u8)
    ensures
        r == abs_diff(a, b),
{
    if a >= b { a - b } else { b - a }
}

fn bigger(a: u8, b: u8) -> (r: u8)
    ensures
        r == max_u8(a, b),
{
    if a >= b { a } else { b }
}

proof fn lemma_agreement_counts(ours: Seq<u8>, our_stride: int, theirs: Seq<u8>, their_stride: int, width: int, n: nat)
    requires
        width > 0,
        n <= u64::MAX,
    ensures
        agreement_upto(ours, our_stride, theirs, their_stride, width, n).pixels == n as u64,
        agreement_upto(ours, our_stride, theirs, their_stride, width, n).differing_pixels <= n,
    decreases n,
{
    if n > 0 {
        lemma_agreement_counts(ours, our_stride, theirs, their_stride, width, (n - 1) as nat);
    }
}

/// Compares two RGBA renderings of `width` by `height` pixels pixel by
/// pixel; both must be of a positive size.
pub fn compare_pixels(
    width: i32,
    height: i32,
    ours: &[u8],
    our_stride: usize,
    theirs: &[u8],
    their_stride: usize,
) -> (r: Result<PixelAgreement, String>)
    requires
        width > 0 && height > 0 ==> {
            &&& our_stride >= 4 * width && their_stride >= 4 * width
            &&& ours@.len() >= our_stride * height && theirs@.len() >= their_stride * height
            &&& width * height <= u64::MAX
        },
        ours@.len() <= isize::MAX,
        theirs@.len() <= isize::MAX,
    ensures
        (width <= 0 || height <= 0) ==> (r matches Err(e) && e@ == "pixel comparison requires a positive output size"@),
        (width > 0 && height > 0) ==> r == Ok::<PixelAgreement, String>(
            agreement_upto(ours@, our_stride as int, theirs@, their_stride as int, width as int, (width * height) as nat)),
{
    if width <= 0 || height <= 0 {
        return Err(owned("pixel comparison requires a positive output size"));
    }
    let w = width as usize;
    let h = height as usize;
    let ghost wi = width as int;
    let mut agreement = PixelAgreement { pixels: 0, differing_pixels: 0, max_channel_delta: 0 };
    let mut y: usize = 0;
    while y < h
        invariant
            w == wi, wi > 0, h == height as int,
            our_stride >= 4 * w, their_stride >= 4 * w,
            ours@.len() >= our_stride * h, theirs@.len() >= their_stride * h,
            ours@.len() <= isize::MAX, theirs@.len() <= isize::MAX,
            w * h <= u64::MAX,
            y <= h,
            agreement == agreement_upto(ours@, our_stride as int, theirs@, their_stride as int, wi, (y * w) as nat),
        decreases h - y,
    {
        assert((y + 1) * our_stride <= our_stride * h && (y + 1) * their_stride <= their_stride * h) by (nonlinear_arith)
            requires y + 1 <= h;
        assert(y * our_stride + our_stride == (y + 1) * our_stride && y * their_stride + their_stride == (y + 1) * their_stride) by (nonlinear_arith);
        let ours_row = y * our_stride;
        let theirs_row = y * their_stride;
        let mut x: usize = 0;
        while x < w
            invariant
                w == wi, wi > 0, h == height as int,
                our_stride >= 4 * w, their_stride >= 4 * w,
                y < h,
                ours_row == y * our_stride, theirs_row == y * their_stride,
                ours_row + our_stride <= ours@.len(), theirs_row + their_stride <= theirs@.len(),
                ours@.len() <= isize::MAX, theirs@.len() <= isize::MAX,
                w * h <= u64::MAX,
                x <= w,
                agreement == agreement_upto(ours@, our_stride as int, theirs@, their_stride as int, wi, (y * w + x) as nat),
            decreases w - x,
        {
            let i = ours_row + x * 4;
            let j = theirs_row + x * 4;
            let d = bigger(
                bigger(diff(ours[i], theirs[j]), diff(ours[i + 1], theirs[j + 1])),
                bigger(diff(ours[i + 2], theirs[j + 2]), diff(ours[i + 3], theirs[j + 3])),
            );
            proof {
                let p = y * w + x;
                assert(p + 1 <= w * h) by (nonlinear_arith)
                    requires p == y * w + x, x < w, y < h;
                vstd::arithmetic::div_mod::lemma_fundamental_div_mod_converse(p as int, wi, y as int, x as int);
                lemma_agreement_counts(ours@, our_stride as int, theirs@, their_stride as int, wi, p as nat);
            }
            agreement = PixelAgreement {
                pixels: agreement.pixels + 1,
                differing_pixels: if d != 0 { agreement.differing_pixels + 1 } else { agreement.differing_pixels },
                max_channel_delta: bigger(agreement.max_channel_delta, d),
            };
            x += 1;
        }
        assert(y * w + w == (y + 1) * w) by (nonlinear_arith);
        y += 1;
    }
    assert(y * w == width * height) by (nonlinear_arith)
        requires y == h, h == height as int, w == width as int;
    Ok(agreement)
}

/// The pixel at byte `offset` has the three colour channels of `expected`,
/// each within 12.
pub open spec fn matches_colour(pixels: Seq<u8>, offset: int, expected: (i32, i32, i32)) -> bool {
    &&& 0 <= offset && offset + 3 <= pixels.len()
    &&& -12 <= pixels[offset] as int - expected.0 <= 12
    &&& -12 <= pixels[offset + 1] as int - expected.1 <= 12
    &&& -12 <= pixels[offset + 2] as int - expected.2 <= 12
}

/// The pixel at byte `offset` is nearly white (all channels above 235).
pub open spec fn is_white(pixels: Seq<u8>, offset: int) -> bool {
    0 <= offset && offset + 3 <= pixels.len() && pixels[offset] > 235 && pixels[offset + 1] > 235 && pixels[offset + 2] > 235
}

/// The pixel at byte `offset` is dark shading (all channels below 55).
pub open spec fn is_shaded(pixels: Seq<u8>, offset: int) -> bool {
    0 <= offset && offset + 3 <= pixels.len() && pixels[offset] < 55 && pixels[offset + 1] < 55 && pixels[offset + 2] < 55
}

/// How many of the first `n` pixels of the region `columns` wide starting at
/// (`x0`, `y0`), row by row, are white (`white`) or shaded (`!white`).
pub open spec fn region_count(pixels: Seq<u8>, stride: int, x0: int, y0: int, columns: int, n: nat, white: bool) -> nat
    decreases n,
{
    if n == 0 || columns <= 0 {
        0
    } else {
        let q = n - 1;
        let offset = (y0 + q / columns) * stride + (x0 + q % columns) * 4;
        region_count(pixels, stride, x0, y0, columns, (n - 1) as nat, white)
            + if (white && is_white(pixels, offset)) || (!white && is_shaded(pixels, offset)) { 1nat } else { 0nat }
    }
}

/// The four sample points, an eighth of the way in from each corner.
pub open spec fn sample_point(width: int, height: int, k: int) -> (int, int) {
    let near_x = width / 8;
    let far_x = width * 7 / 8;
    let near_y = height / 8;
    let far_y = height * 7 / 8;
    if k == 0 { (near_x, near_y) } else if k == 1 { (far_x, near_y) } else if k == 2 { (near_x, far_y) } else { (far_x, far_y) }
}

/// The first sample point whose pixel lacks the expected colour.
pub open spec fn first_mismatch(pixels: Seq<u8>, stride: int, width: int, height: int, expected: (i32, i32, i32), k: nat) -> Option<(int, int)>
    decreases 4 - k,
{
    if k >= 4 {
        None
    } else {
        let (x, y) = sample_point(width, height, k as int);
        if !matches_colour(pixels, y * stride + x * 4, expected) {
            Some((x, y))
        } else {
            first_mismatch(pixels, stride, width, height, expected, k + 1)
        }
    }
}

/// The check of a rendered slide with a plain background of colour
/// `expected` and white text on shading: the corner samples show the
/// background, and the middle of the slide (from a third to two thirds down,
/// a quarter to three quarters across) holds more than 250 white and more
/// than 2000 shaded pixels. Gives the two counts.
pub open spec fn reference_spec(pixels: Seq<u8>, stride: int, width: int, height: int, expected: (i32, i32, i32))
    -> Result<(nat, nat), Seq<char>>
{
    match first_mismatch(pixels, stride, width, height, expected, 0) {
        Some((x, y)) => Err("background pixel mismatch at "@ + decimal(x as nat) + ","@ + decimal(y as nat)),
        None => {
            let x0 = width / 4;
            let y0 = height / 3;
            let columns = width * 3 / 4 - x0;
            let rows = height * 2 / 3 - y0;
            let n = if columns > 0 && rows > 0 { (columns * rows) as nat } else { 0 };
            let white = region_count(pixels, stride, x0, y0, columns, n, true);
            let shaded = region_count(pixels, stride, x0, y0, columns, n, false);
            if white <= 250 || shaded <= 2000 {
                Err("text/shading coverage mismatch: white="@ + decimal(white) + ", shaded="@ + decimal(shaded))
            } else {
                Ok((white, shaded))
            }
        },
    }
}

fn colour_matches(pixels: &[u8], offset: u64, expected: (i32, i32, i32)) -> (r: bool)
    requires
        offset <= u64::MAX - 3,
    ensures
        r == matches_colour(pixels@, offset as int, expected),
{
    if offset + 3 > pixels.len() as u64 {
        return false;
    }
    let offset = offset as usize;
    let near = |actual: u8, wanted: i32| -> (b: bool)
        ensures
            b == (-12 <= actual as int - wanted <= 12),
    {
        let d = actual as i64 - wanted as i64;
        -12 <= d && d <= 12
    };
    near(pixels[offset], expected.0) && near(pixels[offset + 1], expected.1) && near(pixels[offset + 2], expected.2)
}

/// Checks a rendered slide of `width` by `height` pixels (rows `stride`
/// bytes apart in `pixels`) against the expected background colour (see
/// `reference_spec`); a stage without a size fails. The sizes are bounded
/// so that the sample positions (seven eighths of the width) fit an `i32`.
pub fn check_reference_pixels(width: i32, height: i32, pixels: &[u8], stride: usize, expected: (i32, i32, i32))
    -> (r: Result<(u64, u64), String>)
    requires
        width <= 306783378,
        height <= 306783378,
        stride <= u32::MAX,
    ensures
        (width <= 0 || height <= 0) ==> (r matches Err(e) && e@ == "stage has no allocation"@),
        width > 0 && height > 0 ==> match r {
            Ok((white, shaded)) => reference_spec(pixels@, stride as int, width as int, height as int, expected)
                == Ok::<(nat, nat), Seq<char>>((white as nat, shaded as nat)),
            Err(e) => reference_spec(pixels@, stride as int, width as int, height as int, expected)
                == Err::<(nat, nat), Seq<char>>(e@),
        },
{
    if width <= 0 || height <= 0 {
        return Err(owned("stage has no allocation"));
    }
    let w = width as usize;
    let h = height as usize;
    let mut k: usize = 0;
    while k < 4
        invariant
            k <= 4,
            w == width as int, h == height as int,
            0 < width <= 306783378, 0 < height <= 306783378, stride <= u32::MAX,
            first_mismatch(pixels@, stride as int, width as int, height as int, expected, 0)
                == first_mismatch(pixels@, stride as int, width as int, height as int, expected, k as nat),
        decreases 4 - k,
    {
        let x: usize = if k == 0 || k == 2 { w / 8 } else { w * 7 / 8 };
        let y: usize = if k < 2 { h / 8 } else { h * 7 / 8 };
        assert(y * stride + x * 4 <= 306783378 * 0xffff_ffff + 4 * 306783378) by (nonlinear_arith)
            requires y <= 306783378, stride <= 0xffff_ffff, x <= 306783378;
        let offset = (y as u64) * (stride as u64) + (x as u64) * 4;
        assert((x as int, y as int) == sample_point(width as int, height as int, k as int));
        if !colour_matches(pixels, offset, expected) {
            let mut m = chars_of("background pixel mismatch at ");
            let dx = decimal_chars(x as u64);
            append_chars(&mut m, &dx);
            append_str(&mut m, ",");
            let dy = decimal_chars(y as u64);
            append_chars(&mut m, &dy);
            return Err(string_of(&m));
        }
        k += 1;
    }
    let x0 = w / 4;
    let y0 = h / 3;
    let x1 = w * 3 / 4;
    let y1 = h * 2 / 3;
    let columns: usize = if x1 > x0 { x1 - x0 } else { 0 };
    let mut white: u64 = 0;
    let mut shaded: u64 = 0;
    let ghost cols = width as int * 3 / 4 - width as int / 4;
    let ghost rows = height as int * 2 / 3 - height as int / 3;
    assert(columns as int == (if cols > 0 { cols } else { 0 }));
    let mut y = y0;
    while y < y1
        invariant
            y <= 306783378,
            w == width as int, h == height as int,
            0 < width <= 306783378, 0 < height <= 306783378, stride <= u32::MAX,
            x0 == w / 4, y0 == h / 3, x1 == w * 3 / 4, y1 == h * 2 / 3,
            cols == x1 - x0, rows == y1 - y0,
            columns as int == (if cols > 0 { cols } else { 0 }),
            y0 <= y <= (if y1 > y0 { y1 } else { y0 }),
            cols > 0 && y > y0 ==> white as nat == region_count(pixels@, stride as int, x0 as int, y0 as int, cols, ((y - y0) * columns) as nat, true),
            cols > 0 && y > y0 ==> shaded as nat == region_count(pixels@, stride as int, x0 as int, y0 as int, cols, ((y - y0) * columns) as nat, false),
            (cols <= 0 || y == y0) ==> white == 0 && shaded == 0,
            white <= (y - y0) * columns, shaded <= (y - y0) * columns,
            first_mismatch(pixels@, stride as int, width as int, height as int, expected, 0) is None,
        decreases y1 - y,
    {
        proof {
            if y == y0 {
                assert((y - y0) * columns == 0) by (nonlinear_arith)
                    requires y == y0;
            }
        }
        let mut x = x0;
        while x < x1
            invariant
                w == width as int, h == height as int,
                0 < width <= 306783378, 0 < height <= 306783378, stride <= u32::MAX,
                x0 == w / 4, y0 == h / 3, x1 == w * 3 / 4, y1 == h * 2 / 3,
                cols == x1 - x0, rows == y1 - y0,
                columns as int == (if cols > 0 { cols } else { 0 }),
                y0 <= y < y1,
                x0 <= x <= x1,
                cols > 0 ==> white as nat == region_count(pixels@, stride as int, x0 as int, y0 as int, cols, ((y - y0) * columns + (x - x0)) as nat, true),
                cols > 0 ==> shaded as nat == region_count(pixels@, stride as int, x0 as int, y0 as int, cols, ((y - y0) * columns + (x - x0)) as nat, false),
                white <= (y - y0) * columns + (x - x0), shaded <= (y - y0) * columns + (x - x0),
                first_mismatch(pixels@, stride as int, width as int, height as int, expected, 0) is None,
            decreases x1 - x,
        {
            assert(y * stride + x * 4 <= 306783378 * 0xffff_ffff + 4 * 306783378) by (nonlinear_arith)
                requires y <= 306783378, stride <= 0xffff_ffff, x <= 306783378;
            let offset = (y as u64) * (stride as u64) + (x as u64) * 4;
            proof {
                let q = (y - y0) * columns + (x - x0);
                vstd::arithmetic::div_mod::lemma_fundamental_div_mod_converse(q, cols, (y - y0) as int, (x - x0) as int);
                assert((y - y0) * columns + (x - x0) <= 306783378 * 306783378 + 306783378) by (nonlinear_arith)
                    requires y - y0 <= 306783378, columns <= 306783378, x - x0 <= 306783378;
            }
            if offset + 3 <= pixels.len() as u64 {
                let o = offset as usize;
                if pixels[o] > 235 && pixels[o + 1] > 235 && pixels[o + 2] > 235 {
                    white = white + 1;
                }
                if pixels[o] < 55 && pixels[o + 1] < 55 && pixels[o + 2] < 55 {
                    shaded = shaded + 1;
                }
            }
            x += 1;
        }
        assert((y - y0) * columns + columns == (y + 1 - y0) * columns) by (nonlinear_arith);
        y += 1;
    }
    proof {
        if cols > 0 && rows > 0 {
            assert((y - y0) * columns == cols * rows) by (nonlinear_arith)
                requires y == y1, rows == y1 - y0, columns == cols;
        }
    }
    if white <= 250 || shaded <= 2000 {
        let mut m = chars_of("text/shading coverage mismatch: white=");
        let dw = decimal_chars(white);
        append_chars(&mut m, &dw);
        append_str(&mut m, ", shaded=");
        let ds = decimal_chars(shaded);
        append_chars(&mut m, &ds);
        return Err(string_of(&m));
    }
    Ok((white, shaded))
}

} // verus!
