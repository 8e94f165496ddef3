//! PDF export helpers: the names of temporary output files and the pixel
//! conversion of decoded frames into the surface format of the PDF renderer.
use vstd::prelude::*;
use crate::text::{append_chars, append_str, chars_of, decimal, decimal_chars, owned, string_of};

verus! {

/// The lower-case hexadecimal digit for `d < 16`.
pub open spec fn hex_digit(d: nat) -> char {
    if d < 10 { ((d + '0' as nat) as u32) as char } else { ((d - 10 + 'a' as nat) as u32) as char }
}

/// The last `width` hexadecimal digits of `n`, zero-padded.
pub open spec fn hex_fixed(n: nat, width: nat) -> Seq<char>
    decreases width,
{
    if width == 0 {
        Seq::empty()
    } else {
        hex_fixed(n / 16, (width - 1) as nat).push(hex_digit(n % 16))
    }
}

fn hex_char(d: u32) -> (c: char)
    requires
        d < 16,
    ensures
        c == hex_digit(d as nat),
{
    if d < 10 {
        ((d + 48) as u8) as char
    } else {
        ((d - 10 + 97) as u8) as char
    }
}

fn hex_chars(n: u32, width: u32) -> (r: Vec<char>)
    ensures
        r@ == hex_fixed(n as nat, width as nat),
    decreases width,
{
    if width == 0 {
        Vec::new()
    } else {
        let mut r = hex_chars(n / 16, width - 1);
        r.push(hex_char(n % 16));
        r
    }
}

/// The name of temporary file number `serial` of process `pid` for the
/// output file `filename`: ".pinpoint-pdf-<pid>-<serial as 8 hex digits>-<filename>".
pub fn temporary_name(pid: u32, serial: u32, filename: &str) -> (r: String)
    ensures
        r@ == ".pinpoint-pdf-"@ + decimal(pid as nat) + "-"@ + hex_fixed(serial as nat, 8) + "-"@ + filename@,
{
    let mut v = chars_of(".pinpoint-pdf-");
    let p = decimal_chars(pid as u64);
    append_chars(&mut v, &p);
    append_str(&mut v, "-");
    let h = hex_chars(serial, 8);
    append_chars(&mut v, &h);
    append_str(&mut v, "-");
    append_str(&mut v, filename);
    string_of(&v)
}

/// Which byte of an RGBA pixel fills byte `k` of the same pixel in
/// little-endian ARGB32: blue, green, red, alpha.
pub open spec fn channel(k: int) -> int {
    if k == 0 { 2 } else if k == 1 { 1 } else if k == 2 { 0 } else { 3 }
}

/// Byte `idx` of the ARGB32 image made of `source` (rows `source_stride`
/// bytes apart) whose rows are `stride` bytes apart, `width` pixels of each
/// being image and the rest padding.
pub open spec fn argb_byte(source: Seq<u8>, source_stride: int, width: int, stride: int, idx: int) -> u8 {
    let y = idx / stride;
    let j = idx % stride;
    if j < 4 * width { source[y * source_stride + (j / 4) * 4 + channel(j % 4)] } else { 0 }
}

proof fn lemma_position(y: int, stride: int, x: int, k: int)
    requires
        0 <= y,
        0 <= k < 4,
        0 <= x,
        4 * x + k < stride,
    ensures
        (y * stride + 4 * x + k) / stride == y,
        (y * stride + 4 * x + k) % stride == 4 * x + k,
        (4 * x + k) / 4 == x,
        (4 * x + k) % 4 == k,
{
    vstd::arithmetic::div_mod::lemma_fundamental_div_mod_converse(y * stride + 4 * x + k, stride, y, 4 * x + k);
    vstd::arithmetic::div_mod::lemma_fundamental_div_mod_converse(4 * x + k, 4, x, k);
}

fn channel_of(k: usize) -> (c: usize)
    requires
        k < 4,
    ensures
        c as int == channel(k as int),
{
    if k == 0 { 2 } else if k == 1 { 1 } else if k == 2 { 0 } else { 3 }
}

/// Converts a decoded RGBA frame of `width` by `height` pixels, whose rows
/// lie `source_stride` bytes apart in `source`, into little-endian ARGB32
/// rows `stride` bytes apart (the stride the renderer asks for, at least
/// four bytes per pixel), padding with zeros. Refuses frames without pixels
/// and layouts that do not fit `source`.
pub fn rgba_to_argb32(width: i32, height: i32, source: &[u8], source_stride: usize, stride: usize)
    -> (r: Result<Vec<u8>, String>)
    requires
        width > 0 && height > 0 ==> stride >= 4 * width && stride * height <= usize::MAX,
        source@.len() <= isize::MAX,
    ensures
        (width <= 0 || height <= 0) ==> (r matches Err(e) && e@ == "decoded frame has invalid dimensions"@),
        (width > 0 && height > 0 && (source_stride < 4 * width
            || source@.len() < (if source_stride * height > usize::MAX { usize::MAX as int } else { source_stride * height })))
            ==> (r matches Err(e) && e@ == "decoded frame has an unsafe RGBA layout"@),
        r matches Ok(pixels) ==> {
            &&& width > 0 && height > 0
            &&& pixels@.len() == stride * height
            &&& forall|i: int| 0 <= i < pixels@.len()
                ==> #[trigger] pixels@[i] == argb_byte(source@, source_stride as int, width as int, stride as int, i)
        },
        (width > 0 && height > 0 && source_stride >= 4 * width && source@.len() >= source_stride * height) ==> r is Ok,
{
    if width <= 0 || height <= 0 {
        return Err(owned("decoded frame has invalid dimensions"));
    }
    let w = width as usize;
    let h = height as usize;
    let row_bytes = w * 4;
    let needed: usize = if source_stride == 0 {
        0
    } else if h > usize::MAX / source_stride {
        assert(source_stride * h > usize::MAX) by (nonlinear_arith)
            requires source_stride > 0, h > usize::MAX / source_stride;
        usize::MAX
    } else {
        assert(source_stride * h <= usize::MAX) by (nonlinear_arith)
            requires source_stride > 0, h <= usize::MAX / source_stride;
        source_stride * h
    };
    if source_stride < row_bytes || source.len() < needed {
        return Err(owned("decoded frame has an unsafe RGBA layout"));
    }
    let mut pixels: Vec<u8> = Vec::new();
    let mut y: usize = 0;
    let mut row: usize = 0;
    while y < h
        invariant
            w == width as int,
            h == height as int,
            w > 0,
            stride >= 4 * w,
            stride * h <= usize::MAX,
            source_stride >= 4 * w,
            source@.len() >= source_stride * h,
            source@.len() <= isize::MAX,
            row_bytes == 4 * w,
            y <= h,
            row == y * source_stride,
            pixels@.len() == y * stride,
            forall|i: int| 0 <= i < pixels@.len()
                ==> #[trigger] pixels@[i] == argb_byte(source@, source_stride as int, w as int, stride as int, i),
        decreases h - y,
    {
        assert((y + 1) * source_stride <= h * source_stride) by (nonlinear_arith)
            requires y + 1 <= h;
        assert(row + source_stride <= source@.len()) by (nonlinear_arith)
            requires row == y * source_stride, (y + 1) * source_stride <= h * source_stride,
                source@.len() >= source_stride * h;
        assert((y + 1) * stride <= h * stride) by (nonlinear_arith)
            requires y + 1 <= h;
        let mut j: usize = 0;
        while j < stride
            invariant
                w == width as int,
                w > 0,
                stride >= 4 * w,
                y < h,
                (y + 1) * stride <= stride * h,
                stride * h <= usize::MAX,
                row == y * source_stride,
                row + source_stride <= source@.len(),
                source@.len() <= isize::MAX,
                source_stride >= 4 * w,
                row_bytes == 4 * w,
                j <= stride,
                pixels@.len() == y * stride + j,
                forall|i: int| 0 <= i < pixels@.len()
                    ==> #[trigger] pixels@[i] == argb_byte(source@, source_stride as int, w as int, stride as int, i),
            decreases stride - j,
        {
            let ghost idx = pixels@.len() as int;
            assert(y * stride + j < (y + 1) * stride) by (nonlinear_arith)
                requires j < stride;
            let byte: u8 = if j < row_bytes {
                let x = j / 4;
                let k = j % 4;
                let c = channel_of(k);
                proof {
                    lemma_position(y as int, stride as int, x as int, k as int);
                    assert(j == 4 * x + k);
                    assert(x * 4 + c < source_stride);
                }
                let src_index = row + x * 4 + c;
                assert(src_index == y * source_stride + (j / 4) * 4 + channel((j % 4) as int));
                assert(argb_byte(source@, source_stride as int, w as int, stride as int, idx) == source@[src_index as int]);
                source[src_index]
            } else {
                proof {
                    vstd::arithmetic::div_mod::lemma_fundamental_div_mod_converse(y * stride + j, stride as int, y as int, j as int);
                }
                0
            };
            pixels.push(byte);
            proof {
                if j < row_bytes {
                    let x = j / 4;
                    let k = j % 4;
                    lemma_position(y as int, stride as int, x as int, k as int);
                    assert(j == 4 * x + k);
                }
                assert(pixels@[idx] == argb_byte(source@, source_stride as int, w as int, stride as int, idx));
            }
            j += 1;
        }
        assert(y * stride + stride == (y + 1) * stride) by (nonlinear_arith);
        assert(row + source_stride == (y + 1) * source_stride) by (nonlinear_arith)
            requires row == y * source_stride;
        assert(row + source_stride <= source@.len());
        y += 1;
        row = row + source_stride;
    }
    assert(y * stride == stride * height) by (nonlinear_arith)
        requires y == h, h == height as int;
    Ok(pixels)
}

} // verus!
