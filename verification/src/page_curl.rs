//! Mesh density of the page-curl effect and the triangle order of its
//! straight variant.
use vstd::prelude::*;
use crate::text::{chars_of, parse_unsigned, parse_unsigned_chars};

verus! {

pub const MIN_STRAIGHT_TILES: usize = 16;
pub const MIN_ANGLED_TILES: usize = 6;
pub const MAX_STRAIGHT_TILES: usize = 64;
pub const MAX_ANGLED_TILES: usize = 10;

/// `v` brought into `[lo, hi]`.
pub open spec fn clamp_spec(v: int, lo: int, hi: int) -> int {
    if v < lo {
        lo
    } else if v > hi {
        hi
    } else {
        v
    }
}

/// The smallest integer at or above `a / b`, for `b > 0`.
pub open spec fn ceil_div(a: int, b: int) -> int {
    (a + b - 1) / b
}

/// The number of mesh tiles along the page for a widget of `width` by
/// `height` pixels at output scale `scale`: one tile per 48 device pixels of
/// the longer side for a straight curl, one per 240 for an angled one, kept
/// within 16..=64 (straight) or 6..=10 (angled).
pub open spec fn density_spec(width: u32, height: u32, scale: i32, angled: bool) -> int {
    let longest = (if width >= height { width as int } else { height as int }) * (if scale >= 1 { scale as int } else { 1 });
    let target = if angled { 240int } else { 48int };
    if angled {
        clamp_spec(ceil_div(longest, target), MIN_ANGLED_TILES as int, MAX_ANGLED_TILES as int)
    } else {
        clamp_spec(ceil_div(longest, target), MIN_STRAIGHT_TILES as int, MAX_STRAIGHT_TILES as int)
    }
}

/// The tile count of the page-curl mesh (see `density_spec`).
pub fn density(width: u32, height: u32, scale: i32, angled: bool) -> (tiles: usize)
    ensures
        tiles as int == density_spec(width, height, scale, angled),
{
    let longest_side: u64 = if width >= height { width as u64 } else { height as u64 };
    let factor: u64 = if scale >= 1 { scale as u64 } else { 1 };
    assert(longest_side * factor <= 0xffff_ffffu64 * 0x7fff_ffffu64) by (nonlinear_arith)
        requires longest_side <= 0xffff_ffffu64, factor <= 0x7fff_ffffu64;
    let longest: u64 = longest_side * factor;
    let target: u64 = if angled { 240 } else { 48 };
    let count: u64 = (longest + target - 1) / target;
    let (minimum, maximum) = if angled {
        (MIN_ANGLED_TILES, MAX_ANGLED_TILES)
    } else {
        (MIN_STRAIGHT_TILES, MAX_STRAIGHT_TILES)
    };
    if count < minimum as u64 {
        minimum
    } else if count > maximum as u64 {
        maximum
    } else {
        count as usize
    }
}

/// The tile count asked for by an override setting: a number as `usize`
/// parses it, kept within 1..=64; `None` where the text is no such number.
pub open spec fn tiles_override_spec(value: Seq<char>) -> Option<int> {
    match parse_unsigned(value, usize::MAX as nat) {
        Some(n) => Some(clamp_spec(n as int, 1, MAX_STRAIGHT_TILES as int)),
        None => None,
    }
}

/// The mesh never has fewer than 16 or more than 64 tiles when straight,
/// nor fewer than 6 or more than 10 when angled, whatever the size.
pub proof fn law_density_is_bounded(width: u32, height: u32, scale: i32, angled: bool)
    ensures
        angled ==> MIN_ANGLED_TILES <= density_spec(width, height, scale, angled) <= MAX_ANGLED_TILES,
        !angled ==> MIN_STRAIGHT_TILES <= density_spec(width, height, scale, angled) <= MAX_STRAIGHT_TILES,
{
}

/// Reads a tile-count override.
pub fn tiles_override(value: &str) -> (r: Option<usize>)
    ensures
        match r {
            Some(n) => tiles_override_spec(value@) == Some(n as int),
            None => tiles_override_spec(value@) is None,
        },
{
    let chars = chars_of(value);
    match parse_unsigned_chars(&chars, usize::MAX as u64) {
        Some(n) => {
            if n < 1 {
                Some(1)
            } else if n > MAX_STRAIGHT_TILES as u64 {
                Some(MAX_STRAIGHT_TILES)
            } else {
                Some(n as usize)
            }
        },
        None => None,
    }
}

/// The tile count of the mesh where `override_value` is the override setting,
/// if one is set: a valid override wins; otherwise the size decides.
pub fn density_with_override(
    override_value: Option<&str>,
    width: u32,
    height: u32,
    scale: i32,
    angled: bool,
) -> (tiles: usize)
    ensures
        tiles as int == match override_value {
            Some(v) => match tiles_override_spec(v@) {
                Some(n) => n,
                None => density_spec(width, height, scale, angled),
            },
            None => density_spec(width, height, scale, angled),
        },
{
    if let Some(v) = override_value {
        if let Some(n) = tiles_override(v) {
            return n;
        }
    }
    density(width, height, scale, angled)
}

/// The column of the straight mesh that triangle `t` of `indices` lies in:
/// the smallest column that its corners touch, in a grid of `tiles + 1`
/// vertices per row, and never past the last column.
pub open spec fn triangle_column(indices: Seq<u32>, t: int, tiles: int) -> int {
    let row = tiles + 1;
    let a = indices[3 * t] as int % row;
    let b = indices[3 * t + 1] as int % row;
    let c = indices[3 * t + 2] as int % row;
    let m = if a <= b && a <= c { a } else if b <= c { b } else { c };
    if m <= tiles - 1 { m } else { tiles - 1 }
}

/// The columns of the first `n` triangles, each once, in the order in which
/// they first occur.
pub open spec fn columns_in_order(indices: Seq<u32>, tiles: int, n: nat) -> Seq<int>
    decreases n,
{
    if n == 0 {
        Seq::empty()
    } else {
        let prev = columns_in_order(indices, tiles, (n - 1) as nat);
        let c = triangle_column(indices, n - 1, tiles);
        if prev.contains(c) { prev } else { prev.push(c) }
    }
}

/// The six indices that draw `column` of a straight mesh with `tiles`
/// columns as two triangles; `first_lighter` puts the triangle through the
/// top-right corner first.
pub open spec fn quad_spec(column: int, tiles: int, first_lighter: bool) -> Seq<int> {
    let top_left = column;
    let top_right = column + 1;
    let bottom_left = tiles * (tiles + 1) + column;
    let bottom_right = bottom_left + 1;
    if first_lighter {
        seq![top_left, top_right, bottom_right, top_left, bottom_right, bottom_left]
    } else {
        seq![top_left, bottom_right, bottom_left, top_left, top_right, bottom_right]
    }
}

proof fn lemma_columns_bounded(indices: Seq<u32>, tiles: int, n: nat)
    requires
        tiles >= 1,
        3 * n <= indices.len(),
    ensures
        forall|i: int| 0 <= i < columns_in_order(indices, tiles, n).len()
            ==> 0 <= #[trigger] columns_in_order(indices, tiles, n)[i] < tiles,
        columns_in_order(indices, tiles, n).no_duplicates(),
    decreases n,
{
    if n > 0 {
        lemma_columns_bounded(indices, tiles, (n - 1) as nat);
    }
}

/// The columns that the triangles of a straight mesh touch, each once, in
/// the order in which the triangles first reach them; a trailing partial
/// triangle is ignored.
pub fn straight_columns(indices: &Vec<u32>, tiles: usize) -> (columns: Vec<usize>)
    requires
        1 <= tiles < usize::MAX,
    ensures
        columns@.map_values(|c: usize| c as int) == columns_in_order(indices@, tiles as int, (indices@.len() / 3) as nat),
{
    let row = tiles + 1;
    let mut columns: Vec<usize> = Vec::new();
    let mut seen: Vec<bool> = Vec::new();
    let mut k: usize = 0;
    while k < tiles
        invariant
            k <= tiles,
            seen@.len() == k,
            forall|j: int| 0 <= j < k ==> !seen@[j],
        decreases tiles - k,
    {
        seen.push(false);
        k += 1;
    }
    let count = indices.len() / 3;
    let mut t: usize = 0;
    while t < count
        invariant
            count == indices@.len() / 3,
            indices@.len() <= usize::MAX,
            t <= count,
            row == tiles + 1,
            1 <= tiles,
            seen@.len() == tiles,
            columns@.map_values(|c: usize| c as int) == columns_in_order(indices@, tiles as int, t as nat),
            forall|j: int| 0 <= j < tiles ==> (seen@[j] == columns_in_order(indices@, tiles as int, t as nat).contains(j)),
        decreases count - t,
    {
        proof {
            lemma_columns_bounded(indices@, tiles as int, t as nat);
        }
        assert(3 * t + 3 <= indices@.len()) by (nonlinear_arith)
            requires t < count, count == indices@.len() / 3;
        let a = indices[3 * t] as usize % row;
        let b = indices[3 * t + 1] as usize % row;
        let c = indices[3 * t + 2] as usize % row;
        let m = if a <= b && a <= c { a } else if b <= c { b } else { c };
        let column = if m <= tiles - 1 { m } else { tiles - 1 };
        let ghost prev = columns_in_order(indices@, tiles as int, t as nat);
        assert(column as int == triangle_column(indices@, t as int, tiles as int));
        if !seen[column] {
            seen.set(column, true);
            columns.push(column);
            assert(columns@.map_values(|c: usize| c as int) =~= prev.push(column as int));
            assert forall|j: int| 0 <= j < tiles implies (seen@[j] == prev.push(column as int).contains(j)) by {
                if prev.contains(j) {
                    let w = choose|w: int| 0 <= w < prev.len() && prev[w] == j;
                    assert(prev.push(column as int)[w] == j);
                }
                if prev.push(column as int).contains(j) && j != column {
                    let w = choose|w: int| 0 <= w < prev.push(column as int).len() && prev.push(column as int)[w] == j;
                    assert(prev[w] == j);
                }
                if j == column {
                    assert(prev.push(column as int)[prev.len() as int] == j);
                }
            }
        }
        t += 1;
    }
    columns
}

/// The triangle indices of a straight page curl: two triangles per column,
/// columns in the order `straight_columns` gives; `first_lighter[c]` says
/// whether the top-right triangle of column `c` is the less shaded one and
/// so drawn first.
pub fn straight_indices(indices: &Vec<u32>, tiles: usize, first_lighter: &Vec<bool>) -> (result: Vec<u32>)
    requires
        1 <= tiles,
        tiles * (tiles + 2) <= u32::MAX,
        first_lighter@.len() == tiles,
    ensures
        ({
            let cols = columns_in_order(indices@, tiles as int, (indices@.len() / 3) as nat);
            &&& result@.len() == 6 * cols.len()
            &&& forall|i: int, j: int| 0 <= i < cols.len() && 0 <= j < 6
                ==> #[trigger] result@[6 * i + j] as int == #[trigger] quad_spec(cols[i], tiles as int, first_lighter@[cols[i]])[j]
        }),
{
    assert(tiles < 0x10000) by (nonlinear_arith)
        requires tiles * (tiles + 2) <= u32::MAX, tiles >= 1;
    let columns = straight_columns(indices, tiles);
    let ghost cols = columns_in_order(indices@, tiles as int, (indices@.len() / 3) as nat);
    proof {
        lemma_columns_bounded(indices@, tiles as int, (indices@.len() / 3) as nat);
        assert forall|i: int| 0 <= i < columns@.len() implies columns@[i] as int == cols[i] by {
            assert(columns@.map_values(|c: usize| c as int)[i] == cols[i]);
        }
    }
    let mut result: Vec<u32> = Vec::new();
    let mut i: usize = 0;
    while i < columns.len()
        invariant
            i <= columns@.len(),
            columns@.len() == cols.len(),
            forall|k: int| 0 <= k < columns@.len() ==> columns@[k] as int == cols[k] && 0 <= cols[k] < tiles,
            first_lighter@.len() == tiles,
            1 <= tiles < 0x10000,
            tiles * (tiles + 2) <= u32::MAX,
            result@.len() == 6 * i,
            forall|k: int, j: int| 0 <= k < i && 0 <= j < 6
                ==> #[trigger] result@[6 * k + j] as int == #[trigger] quad_spec(cols[k], tiles as int, first_lighter@[cols[k]])[j],
        decreases columns@.len() - i,
    {
        let column = columns[i];
        assert(column as int == cols[i as int]);
        assert(tiles * (tiles + 1) + column + 1 <= tiles * (tiles + 2)) by (nonlinear_arith)
            requires column < tiles;
        let row_len: usize = tiles + 1;
        assert(tiles * row_len + column + 1 <= u32::MAX) by (nonlinear_arith)
            requires row_len == tiles + 1, tiles * (tiles + 2) <= u32::MAX, column < tiles;
        let top_left = column as u32;
        let top_right = top_left + 1;
        let bottom_left = (tiles * row_len + column) as u32;
        let bottom_right = bottom_left + 1;
        let ghost before = result@;
        if first_lighter[column] {
            result.push(top_left);
            result.push(top_right);
            result.push(bottom_right);
            result.push(top_left);
            result.push(bottom_right);
            result.push(bottom_left);
        } else {
            result.push(top_left);
            result.push(bottom_right);
            result.push(bottom_left);
            result.push(top_left);
            result.push(top_right);
            result.push(bottom_right);
        }
        proof {
            let q = quad_spec(cols[i as int], tiles as int, first_lighter@[cols[i as int]]);
            assert forall|k: int, j: int| 0 <= k < i + 1 && 0 <= j < 6
                implies #[trigger] result@[6 * k + j] as int == #[trigger] quad_spec(cols[k], tiles as int, first_lighter@[cols[k]])[j] by {
                if k < i {
                    assert(result@[6 * k + j] == before[6 * k + j]);
                } else {
                    assert(k == i);
                }
            }
        }
        i += 1;
    }
    result
}

} // verus!
