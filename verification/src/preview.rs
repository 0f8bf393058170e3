//! The terminal preview of glyphs: thresholding coverage maps into binary
//! matrices, assembling grid tiles, cropping to the active area, and
//! rendering with half-block characters at an aspect-preserving scale.
use vstd::prelude::*;
use crate::model::{InteractiveGlyph, PreprocessedGlyph};
use crate::text::{push_str, string_of};

verus! {

// ---------------------------------------------------------------------------
// Binary matrices
// ---------------------------------------------------------------------------
/// Whether a coverage value is drawn at `threshold`, `invert` flipping it.
pub open spec fn pixel_on(value: u8, threshold: u8, invert: bool) -> bool {
    (value >= threshold) != invert
}

/// The thresholded matrix of the first `w * h` coverage values.
pub open spec fn threshold_matrix(coverage: Seq<u8>, w: nat, h: nat, threshold: u8, invert: bool) -> Seq<bool> {
    Seq::new(w * h, |i: int| pixel_on(coverage[i], threshold, invert))
}

/// A higher threshold keeps fewer pixels: every pixel drawn at the higher
/// threshold is drawn at the lower one (without inversion).
pub proof fn lemma_higher_threshold_keeps_fewer_pixels(coverage: Seq<u8>, w: nat, h: nat, low: u8, high: u8)
    requires
        low <= high,
        w * h <= coverage.len(),
    ensures
        threshold_matrix(coverage, w, h, high, false).len() == threshold_matrix(coverage, w, h, low, false).len(),
        forall|i: int|
            0 <= i < w * h && #[trigger] threshold_matrix(coverage, w, h, high, false)[i] ==> threshold_matrix(
                coverage,
                w,
                h,
                low,
                false,
            )[i],
{
}

fn thresholded(coverage: &Vec<u8>, w: usize, h: usize, threshold: u8, invert: bool) -> (r: Vec<bool>)
    requires
        w * h <= coverage.len(),
    ensures
        r@ == threshold_matrix(coverage@, w as nat, h as nat, threshold, invert),
{
    let n = w * h;
    let mut r: Vec<bool> = Vec::new();
    let mut i: usize = 0;
    while i < n
        invariant
            n == w * h,
            n <= coverage.len(),
            i <= n,
            r@.len() == i,
            forall|j: int| 0 <= j < i ==> r@[j] == pixel_on(coverage@[j], threshold, invert),
        decreases n - i,
    {
        r.push((coverage[i] >= threshold) != invert);
        i = i + 1;
    }
    proof {
        assert(r@ =~= threshold_matrix(coverage@, w as nat, h as nat, threshold, invert));
    }
    r
}

/// Pixel (`x`, `y`) of a row-major matrix `w` wide is set.
pub open spec fn on_at(m: Seq<bool>, w: nat, x: int, y: int) -> bool {
    m[y * w + x]
}

/// Some pixel of row `y` (within the first `w` columns) is set.
pub open spec fn row_active(m: Seq<bool>, w: nat, y: int) -> bool {
    exists|x: int| 0 <= x < w && #[trigger] on_at(m, w, x, y)
}

/// Some pixel of column `x` (within the first `h` rows) is set.
pub open spec fn col_active(m: Seq<bool>, w: nat, h: nat, x: int) -> bool {
    exists|y: int| 0 <= y < h && #[trigger] on_at(m, w, x, y)
}

proof fn lemma_index_bound(w: nat, h: nat, x: int, y: int)
    requires
        0 <= x < w,
        0 <= y < h,
    ensures
        0 <= y * w + x < w * h,
{
    assert(y * w + x < w * h) by (nonlinear_arith)
        requires
            0 <= x < w,
            0 <= y < h,
    ;
    assert(0 <= y * w) by (nonlinear_arith)
        requires
            0 <= y,
    ;
}

// ---------------------------------------------------------------------------
// Cropping
// ---------------------------------------------------------------------------
/// `rows` rows of `m` starting at row `top`, full width.
pub open spec fn row_band(m: Seq<bool>, w: nat, top: int, rows: nat) -> Seq<bool> {
    Seq::new(w * rows, |i: int| m[top * w + i])
}

/// The window of `m` with corner (`left`, `top`), `ow` wide and `oh` high.
pub open spec fn window(m: Seq<bool>, w: nat, left: int, top: int, ow: nat, oh: nat) -> Seq<bool> {
    Seq::new(ow * oh, |i: int| m[(top + i / ow as int) * w + left + i % ow as int])
}

/// Finds the first and last active rows of the `w` x `h` matrix.
fn active_rows(matrix: &Vec<bool>, w: usize, h: usize) -> (r: Option<(usize, usize)>)
    requires
        w * h <= matrix.len(),
        w > 0,
    ensures
        r is None ==> forall|y: int| 0 <= y < h ==> !row_active(matrix@, w as nat, y),
        r matches Some((top, bottom)) ==> {
            &&& top <= bottom < h
            &&& row_active(matrix@, w as nat, top as int)
            &&& row_active(matrix@, w as nat, bottom as int)
            &&& forall|y: int|
                0 <= y < h && !(top <= y <= bottom) ==> !row_active(matrix@, w as nat, y)
        },
{
    let mut found: Option<(usize, usize)> = None;
    let mut y: usize = 0;
    while y < h
        invariant
            y <= h,
            w * h <= matrix.len(),
            w > 0,
            found is None ==> forall|yy: int| 0 <= yy < y ==> !row_active(matrix@, w as nat, yy),
            found matches Some((top, bottom)) ==> {
                &&& top <= bottom < y
                &&& row_active(matrix@, w as nat, top as int)
                &&& row_active(matrix@, w as nat, bottom as int)
                &&& forall|yy: int|
                    0 <= yy < y && !(top <= yy <= bottom) ==> !row_active(matrix@, w as nat, yy)
            },
        decreases h - y,
    {
        let mut x: usize = 0;
        let mut any = false;
        while x < w && !any
            invariant
                x <= w,
                y < h,
                w * h <= matrix.len(),
                !any ==> forall|xx: int| 0 <= xx < x ==> !on_at(matrix@, w as nat, xx, y as int),
                any ==> row_active(matrix@, w as nat, y as int),
            decreases w - x,
        {
            proof {
                lemma_index_bound(w as nat, h as nat, x as int, y as int);
            }
            if matrix[y * w + x] {
                any = true;
                proof {
                    assert(on_at(matrix@, w as nat, x as int, y as int));
                }
            }
            x = x + 1;
        }
        if any {
            found = match found {
                Some((top, _)) => Some((top, y)),
                None => Some((y, y)),
            };
        }
        y = y + 1;
    }
    found
}

pub open spec fn is_first_row(m: Seq<bool>, w: nat, h: nat, t: int) -> bool {
    0 <= t < h && row_active(m, w, t) && forall|y: int| 0 <= y < t ==> !row_active(m, w, y)
}

pub open spec fn is_last_row(m: Seq<bool>, w: nat, h: nat, b: int) -> bool {
    0 <= b < h && row_active(m, w, b) && forall|y: int| b < y < h ==> !row_active(m, w, y)
}

pub open spec fn is_first_col(m: Seq<bool>, w: nat, h: nat, l: int) -> bool {
    0 <= l < w && col_active(m, w, h, l) && forall|x: int| 0 <= x < l ==> !col_active(m, w, h, x)
}

pub open spec fn is_last_col(m: Seq<bool>, w: nat, h: nat, r: int) -> bool {
    0 <= r < w && col_active(m, w, h, r) && forall|x: int| r < x < w ==> !col_active(m, w, h, x)
}

/// The first active row (when some row is active).
pub open spec fn first_row(m: Seq<bool>, w: nat, h: nat) -> int {
    choose|t: int| is_first_row(m, w, h, t)
}

/// The last active row (when some row is active).
pub open spec fn last_row(m: Seq<bool>, w: nat, h: nat) -> int {
    choose|b: int| is_last_row(m, w, h, b)
}

pub open spec fn first_col(m: Seq<bool>, w: nat, h: nat) -> int {
    choose|l: int| is_first_col(m, w, h, l)
}

pub open spec fn last_col(m: Seq<bool>, w: nat, h: nat) -> int {
    choose|r: int| is_last_col(m, w, h, r)
}

/// No pixel of the `w` x `h` matrix is set.
pub open spec fn blank(m: Seq<bool>, w: nat, h: nat) -> bool {
    forall|y: int| 0 <= y < h ==> !row_active(m, w, y)
}

proof fn lemma_rows_unique(m: Seq<bool>, w: nat, h: nat, t: int, b: int)
    requires
        is_first_row(m, w, h, t),
        is_last_row(m, w, h, b),
    ensures
        first_row(m, w, h) == t,
        last_row(m, w, h) == b,
{
    let t2 = first_row(m, w, h);
    assert(is_first_row(m, w, h, t2));
    if t2 < t {
        assert(!row_active(m, w, t2));
    } else if t2 > t {
        assert(!row_active(m, w, t));
    }
    let b2 = last_row(m, w, h);
    assert(is_last_row(m, w, h, b2));
    if b2 < b {
        assert(!row_active(m, w, b));
    } else if b2 > b {
        assert(!row_active(m, w, b2));
    }
}

proof fn lemma_cols_unique(m: Seq<bool>, w: nat, h: nat, l: int, r: int)
    requires
        is_first_col(m, w, h, l),
        is_last_col(m, w, h, r),
    ensures
        first_col(m, w, h) == l,
        last_col(m, w, h) == r,
{
    let l2 = first_col(m, w, h);
    assert(is_first_col(m, w, h, l2));
    if l2 < l {
        assert(!col_active(m, w, h, l2));
    } else if l2 > l {
        assert(!col_active(m, w, h, l));
    }
    let r2 = last_col(m, w, h);
    assert(is_last_col(m, w, h, r2));
    if r2 < r {
        assert(!col_active(m, w, h, r));
    } else if r2 > r {
        assert(!col_active(m, w, h, r2));
    }
}

/// The active rows of a `src_w` x `src_h` matrix, full width: `None` when
/// no pixel is set (or the matrix is empty).
pub fn crop_binary_matrix_to_active_y_bounds(matrix: &Vec<bool>, src_w: usize, src_h: usize) -> (r: Option<(Vec<bool>, usize, usize)>)
    requires
        src_w * src_h <= matrix.len(),
    ensures
        (matrix.len() == 0 || src_w == 0 || src_h == 0) ==> r is None,
        (matrix.len() > 0 && src_w > 0 && src_h > 0) ==> (r is None <==> blank(matrix@, src_w as nat, src_h as nat)),
        r matches Some((c, w, oh)) ==> {
            let top = first_row(matrix@, src_w as nat, src_h as nat);
            &&& is_first_row(matrix@, src_w as nat, src_h as nat, top)
            &&& is_last_row(matrix@, src_w as nat, src_h as nat, last_row(matrix@, src_w as nat, src_h as nat))
            &&& w == src_w
            &&& oh as int == last_row(matrix@, src_w as nat, src_h as nat) - top + 1
            &&& c@ == row_band(matrix@, src_w as nat, top, oh as nat)
        },
{
    if matrix.len() == 0 || src_w == 0 || src_h == 0 {
        return None;
    }
    let (top, bottom) = match active_rows(matrix, src_w, src_h) {
        Some(b) => b,
        None => return None,
    };
    proof {
        lemma_rows_unique(matrix@, src_w as nat, src_h as nat, top as int, bottom as int);
    }
    let out_h = bottom - top + 1;
    proof {
        assert(src_w * out_h + src_w * top <= src_w * src_h) by (nonlinear_arith)
            requires
                top + out_h <= src_h,
        ;
    }
    let n = src_w * out_h;
    let base = top * src_w;
    proof {
        assert(top * src_w == src_w * top) by (nonlinear_arith);
    }
    let mut c: Vec<bool> = Vec::new();
    let mut i: usize = 0;
    while i < n
        invariant
            n == src_w * out_h,
            base == top * src_w,
            base + n <= matrix.len(),
            i <= n,
            c@.len() == i,
            forall|j: int| 0 <= j < i ==> c@[j] == matrix@[top * src_w + j],
        decreases n - i,
    {
        c.push(matrix[base + i]);
        i = i + 1;
    }
    proof {
        assert(c@ =~= row_band(matrix@, src_w as nat, top as int, out_h as nat));
    }
    Some((c, src_w, out_h))
}

/// The last/first active column of the matrix.
fn active_cols(matrix: &Vec<bool>, w: usize, h: usize) -> (r: Option<(usize, usize)>)
    requires
        w * h <= matrix.len(),
        w > 0,
    ensures
        r is None ==> forall|x: int| 0 <= x < w ==> !col_active(matrix@, w as nat, h as nat, x),
        r matches Some((left, right)) ==> {
            &&& left <= right < w
            &&& col_active(matrix@, w as nat, h as nat, left as int)
            &&& col_active(matrix@, w as nat, h as nat, right as int)
            &&& forall|x: int|
                0 <= x < w && !(left <= x <= right) ==> !col_active(matrix@, w as nat, h as nat, x)
        },
{
    let mut found: Option<(usize, usize)> = None;
    let mut x: usize = 0;
    while x < w
        invariant
            x <= w,
            w * h <= matrix.len(),
            w > 0,
            found is None ==> forall|xx: int| 0 <= xx < x ==> !col_active(matrix@, w as nat, h as nat, xx),
            found matches Some((left, right)) ==> {
                &&& left <= right < x
                &&& col_active(matrix@, w as nat, h as nat, left as int)
                &&& col_active(matrix@, w as nat, h as nat, right as int)
                &&& forall|xx: int|
                    0 <= xx < x && !(left <= xx <= right) ==> !col_active(matrix@, w as nat, h as nat, xx)
            },
        decreases w - x,
    {
        let mut y: usize = 0;
        let mut any = false;
        while y < h && !any
            invariant
                y <= h,
                x < w,
                w * h <= matrix.len(),
                !any ==> forall|yy: int| 0 <= yy < y ==> !on_at(matrix@, w as nat, x as int, yy),
                any ==> col_active(matrix@, w as nat, h as nat, x as int),
            decreases h - y,
        {
            proof {
                lemma_index_bound(w as nat, h as nat, x as int, y as int);
            }
            if matrix[y * w + x] {
                any = true;
                proof {
                    assert(on_at(matrix@, w as nat, x as int, y as int));
                }
            }
            y = y + 1;
        }
        if any {
            found = match found {
                Some((left, _)) => Some((left, x)),
                None => Some((x, x)),
            };
        }
        x = x + 1;
    }
    found
}

/// The smallest window of a `src_w` x `src_h` matrix holding every set
/// pixel: `None` when no pixel is set (or the matrix is empty).
pub fn crop_binary_matrix_to_active_bounds(matrix: &Vec<bool>, src_w: usize, src_h: usize) -> (r: Option<(Vec<bool>, usize, usize)>)
    requires
        src_w * src_h <= matrix.len(),
    ensures
        (matrix.len() == 0 || src_w == 0 || src_h == 0) ==> r is None,
        (matrix.len() > 0 && src_w > 0 && src_h > 0) ==> (r is None <==> blank(matrix@, src_w as nat, src_h as nat)),
        r matches Some((c, ow, oh)) ==> {
            let top = first_row(matrix@, src_w as nat, src_h as nat);
            let left = first_col(matrix@, src_w as nat, src_h as nat);
            &&& ow as int == last_col(matrix@, src_w as nat, src_h as nat) - left + 1
            &&& oh as int == last_row(matrix@, src_w as nat, src_h as nat) - top + 1
            &&& c@ == window(matrix@, src_w as nat, left, top, ow as nat, oh as nat)
        },
        r matches Some((c, ow, oh)) ==> {
            let top = first_row(matrix@, src_w as nat, src_h as nat);
            let bottom = last_row(matrix@, src_w as nat, src_h as nat);
            let left = first_col(matrix@, src_w as nat, src_h as nat);
            let right = last_col(matrix@, src_w as nat, src_h as nat);
            &&& 0 <= left <= right < src_w && 0 <= top <= bottom < src_h
            &&& row_active(matrix@, src_w as nat, top) && row_active(matrix@, src_w as nat, bottom)
            &&& col_active(matrix@, src_w as nat, src_h as nat, left) && col_active(
                matrix@,
                src_w as nat,
                src_h as nat,
                right,
            )
            &&& forall|x: int, y: int|
                0 <= x < src_w && 0 <= y < src_h && #[trigger] on_at(matrix@, src_w as nat, x, y) ==> left <= x
                    <= right && top <= y <= bottom
            &&& c@.len() == ow * oh
            &&& forall|x: int, y: int|
                0 <= x < ow && 0 <= y < oh ==> #[trigger] c@[y * ow + x] == on_at(matrix@, src_w as nat, left + x, top + y)
        },
{
    if matrix.len() == 0 || src_w == 0 || src_h == 0 {
        return None;
    }
    let (top, bottom) = match active_rows(matrix, src_w, src_h) {
        Some(b) => b,
        None => return None,
    };
    let (left, right) = match active_cols(matrix, src_w, src_h) {
        Some(b) => b,
        None => {
            proof {
                let y = top as int;
                assert(row_active(matrix@, src_w as nat, y));
                let x = choose|x: int| 0 <= x < src_w && #[trigger] on_at(matrix@, src_w as nat, x, y);
                assert(col_active(matrix@, src_w as nat, src_h as nat, x));
            }
            return None;
        },
    };
    proof {
        lemma_rows_unique(matrix@, src_w as nat, src_h as nat, top as int, bottom as int);
        lemma_cols_unique(matrix@, src_w as nat, src_h as nat, left as int, right as int);
    }
    let out_w = right - left + 1;
    let out_h = bottom - top + 1;
    let mut c: Vec<bool> = Vec::new();
    let mut y: usize = 0;
    while y < out_h
        invariant
            y <= out_h,
            top + out_h <= src_h,
            left + out_w <= src_w,
            out_w >= 1,
            src_w * src_h <= matrix.len(),
            c@.len() == y * out_w,
            forall|j: int| 0 <= j < c@.len() ==> c@[j] == matrix@[(top + j / out_w as int) * src_w + left + j % out_w as int],
        decreases out_h - y,
    {
        let mut x: usize = 0;
        while x < out_w
            invariant
                x <= out_w,
                y < out_h,
                top + out_h <= src_h,
                left + out_w <= src_w,
                out_w >= 1,
                src_w * src_h <= matrix.len(),
                c@.len() == y * out_w + x,
                forall|j: int| 0 <= j < c@.len() ==> c@[j] == matrix@[(top + j / out_w as int) * src_w + left + j % out_w as int],
            decreases out_w - x,
        {
            proof {
                lemma_index_bound(src_w as nat, src_h as nat, (left + x) as int, (top + y) as int);
                let j = y * out_w + x;
                assert(j / out_w as int == y as int && j % out_w as int == x as int) by (nonlinear_arith)
                    requires
                        j == y * out_w + x,
                        x < out_w,
                        0 <= y,
                ;
            }
            c.push(matrix[(top + y) * src_w + left + x]);
            x = x + 1;
        }
        proof {
            assert(y * out_w + out_w == (y + 1) * out_w) by (nonlinear_arith);
        }
        y = y + 1;
    }
    proof {
        assert(out_h * out_w == out_w * out_h) by (nonlinear_arith);
        assert(c@ =~= window(matrix@, src_w as nat, left as int, top as int, out_w as nat, out_h as nat));
        assert forall|xx: int, yy: int|
            0 <= xx < src_w && 0 <= yy < src_h && #[trigger] on_at(matrix@, src_w as nat, xx, yy) implies left <= xx
                <= right && top <= yy <= bottom by {
            assert(row_active(matrix@, src_w as nat, yy));
            assert(col_active(matrix@, src_w as nat, src_h as nat, xx));
        }
        assert forall|xx: int, yy: int| 0 <= xx < out_w && 0 <= yy < out_h implies #[trigger] c@[yy * out_w + xx]
            == on_at(matrix@, src_w as nat, left + xx, top + yy) by {
            let j = yy * out_w + xx;
            assert(0 <= j < out_w * out_h && j / out_w as int == yy && j % out_w as int == xx) by (nonlinear_arith)
                requires
                    j == yy * out_w + xx,
                    0 <= xx < out_w,
                    0 <= yy < out_h,
            ;
        }
    }
    Some((c, out_w, out_h))
}

// ---------------------------------------------------------------------------
// Half-block rendering
// ---------------------------------------------------------------------------
/// `round(base * 0.88)`, at least 1: the horizontal compensation for
/// terminal cells that are taller than wide.
pub open spec fn x_compensated(base: nat) -> nat {
    let v = (base * 88 + 50) / 100;
    if v < 1 {
        1
    } else {
        v
    }
}

/// `round(n / d)` with halves rounded up.
pub open spec fn round_div(n: nat, d: nat) -> nat {
    (2 * n + d) / (2 * d)
}

pub open spec fn clamp(v: nat, lo: nat, hi: nat) -> nat {
    if v < lo {
        lo
    } else if v > hi {
        hi
    } else {
        v
    }
}

/// The size (in terminal cells) the preview of a `src_w` x `src_h` matrix is
/// drawn at inside a `max_w` x `max_h` area.
pub open spec fn preview_size(src_w: nat, src_h: nat, max_w: nat, max_h: nat, allow_upscale: bool, preserve_aspect: bool) -> (nat, nat) {
    let base_w = if allow_upscale {
        max_w
    } else if src_w < max_w {
        src_w
    } else {
        max_w
    };
    let mw = x_compensated(if base_w < 1 {
        1
    } else {
        base_w
    });
    let mh0 = if allow_upscale {
        max_h
    } else if src_h < max_h {
        src_h
    } else {
        max_h
    };
    let mh = if mh0 < 1 {
        1
    } else {
        mh0
    };
    fit_size(src_w, src_h, mw, mh, preserve_aspect)
}

/// The largest size within `mw` x `mh` with the aspect ratio of
/// `src_w` x `src_h` (when `preserve_aspect`), rounding to the nearest cell.
pub open spec fn fit_size(src_w: nat, src_h: nat, mw: nat, mh: nat, preserve_aspect: bool) -> (nat, nat) {
    if preserve_aspect {
        if mw * src_h <= mh * src_w {
            (mw, clamp(round_div(src_h * mw, src_w), 1, mh))
        } else {
            (clamp(round_div(src_w * mh, src_h), 1, mw), mh)
        }
    } else {
        (mw, mh)
    }
}

/// The source index sampled for output index `o` of `out_len` over `src_len`.
pub open spec fn sample_index(o: nat, out_len: nat, src_len: nat) -> nat {
    let v = ((2 * o + 1) * src_len) / (2 * out_len);
    if v < src_len {
        v
    } else {
        (src_len - 1) as nat
    }
}

/// The half-block character for a top and bottom pixel.
pub open spec fn half_block(top: bool, bottom: bool) -> char {
    if top && bottom {
        '█'
    } else if top {
        '▀'
    } else if bottom {
        '▄'
    } else {
        ' '
    }
}

/// One preview row: four spaces of indent, then each sampled cell drawn twice.
pub open spec fn preview_row(m: Seq<bool>, src_w: nat, src_h: nat, out_w: nat, out_h: nat, oy: nat) -> Seq<char> {
    let sy_top = sample_index(2 * oy, 2 * out_h, src_h);
    let sy_bottom = sample_index(2 * oy + 1, 2 * out_h, src_h);
    seq![' ', ' ', ' ', ' '] + Seq::new(2 * out_w, |i: int| {
        let sx = sample_index((i / 2) as nat, out_w, src_w);
        half_block(m[(sy_top * src_w + sx) as int], m[(sy_bottom * src_w + sx) as int])
    })
}

/// A row shows something when it holds a block character.
pub open spec fn row_visible(row: Seq<char>) -> bool {
    row.contains('█') || row.contains('▀') || row.contains('▄')
}

pub open spec fn visible_rows(rows: Seq<Seq<char>>) -> Seq<Seq<char>>
    decreases rows.len(),
{
    if rows.len() == 0 {
        seq![]
    } else if row_visible(rows.last()) {
        visible_rows(rows.drop_last()).push(rows.last())
    } else {
        visible_rows(rows.drop_last())
    }
}

pub open spec fn too_small_line() -> Seq<char> {
    "    [Preview too small]"@
}

pub open spec fn no_pixels_line() -> Seq<char> {
    "    [No visible pixels at threshold]"@
}

/// The rendered preview lines of a `src_w` x `src_h` binary matrix.
pub open spec fn preview_render(
    m: Seq<bool>,
    src_w: nat,
    src_h: nat,
    max_w: nat,
    max_h: nat,
    allow_upscale: bool,
    trim_empty_rows: bool,
    preserve_aspect: bool,
) -> Seq<Seq<char>> {
    if m.len() == 0 || src_w == 0 || src_h == 0 || max_w == 0 || max_h == 0 {
        seq![too_small_line()]
    } else {
        let (out_w, out_h) = preview_size(src_w, src_h, max_w, max_h, allow_upscale, preserve_aspect);
        let rows = Seq::new(out_h, |oy: int| preview_row(m, src_w, src_h, out_w, out_h, oy as nat));
        let kept = if trim_empty_rows {
            visible_rows(rows)
        } else {
            rows
        };
        if kept.len() == 0 {
            seq![no_pixels_line()]
        } else {
            kept
        }
    }
}

fn sample_idx(o: usize, out_len: usize, src_len: usize) -> (r: usize)
    requires
        o < out_len,
        out_len <= 0x20000,
        src_len >= 1,
    ensures
        r as nat == sample_index(o as nat, out_len as nat, src_len as nat),
        r < src_len,
{
    let a: u128 = 2 * (o as u128) + 1;
    let d: u128 = 2 * (out_len as u128);
    proof {
        assert(a * (src_len as u128) <= 0x40000 * 0xffff_ffff_ffff_ffffu128) by (nonlinear_arith)
            requires
                a <= 0x40000,
                src_len <= 0xffff_ffff_ffff_ffffu128,
        ;
    }
    let v = (a * (src_len as u128)) / d;
    if v < src_len as u128 {
        v as usize
    } else {
        src_len - 1
    }
}

/// The upper half of a terminal cell showing `c` is lit (a full block or an
/// upper half block).
pub open spec fn upper_half_lit(c: char) -> bool {
    c == '\u{2588}' || c == '\u{2580}'
}

/// The lower half of a terminal cell showing `c` is lit (a full block or a
/// lower half block).
pub open spec fn lower_half_lit(c: char) -> bool {
    c == '\u{2588}' || c == '\u{2584}'
}

/// A cell's glyph lights its upper half exactly when the top pixel is set
/// and its lower half exactly when the bottom pixel is set; it is a block
/// character or a space.
pub proof fn lemma_half_block_lights(top: bool, bottom: bool)
    ensures
        upper_half_lit(half_block(top, bottom)) == top,
        lower_half_lit(half_block(top, bottom)) == bottom,
        half_block(top, bottom) == ' ' || half_block(top, bottom) == '\u{2580}' || half_block(top, bottom)
            == '\u{2584}' || half_block(top, bottom) == '\u{2588}',
{
}

proof fn lemma_sample_identity(o: nat, len: nat)
    requires
        o < len,
    ensures
        sample_index(o, len, len) == o,
{
    assert(((2 * o + 1) * len) / (2 * len) == o) by (nonlinear_arith)
        requires
            o < len,
    {
        assert((2 * o + 1) * len == o * (2 * len) + len);
        assert(0 <= len < 2 * len);
    }
}

/// A cell's upper half never shows a pixel row below the one its lower
/// half shows.
pub proof fn lemma_upper_half_samples_higher(oy: nat, out_h: nat, src_h: nat)
    requires
        out_h > 0,
        src_h > 0,
    ensures
        sample_index(2 * oy, 2 * out_h, src_h) <= sample_index(2 * oy + 1, 2 * out_h, src_h),
{
    let a = (2 * (2 * oy) + 1) * src_h;
    let b = (2 * (2 * oy + 1) + 1) * src_h;
    assert(a <= b) by (nonlinear_arith)
        requires
            a == (2 * (2 * oy) + 1) * src_h,
            b == (2 * (2 * oy + 1) + 1) * src_h,
            src_h > 0,
    ;
    assert(a / (2 * (2 * out_h)) <= b / (2 * (2 * out_h))) by (nonlinear_arith)
        requires
            a <= b,
            out_h > 0,
    ;
}

/// At one pixel per half cell (the preview as tall as the source in half
/// cells and as wide in cells), every cell of row `oy` shows source row
/// `2 * oy` in its upper half and row `2 * oy + 1` in its lower half, each
/// source column drawn twice.
pub proof fn lemma_preview_row_at_scale_one(m: Seq<bool>, w: nat, out_h: nat, oy: nat, i: int)
    requires
        w > 0,
        oy < out_h,
        0 <= i < 2 * w,
    ensures
        upper_half_lit(preview_row(m, w, 2 * out_h, w, out_h, oy)[4 + i]) == m[(2 * oy * w + i / 2) as int],
        lower_half_lit(preview_row(m, w, 2 * out_h, w, out_h, oy)[4 + i]) == m[((2 * oy + 1) * w + i / 2) as int],
{
    let row = preview_row(m, w, 2 * out_h, w, out_h, oy);
    lemma_sample_identity(2 * oy, 2 * out_h);
    lemma_sample_identity(2 * oy + 1, 2 * out_h);
    lemma_sample_identity((i / 2) as nat, w);
    let sx = sample_index((i / 2) as nat, w, w);
    assert(row[4 + i] == half_block(m[(2 * oy * w + sx) as int], m[((2 * oy + 1) * w + sx) as int]));
    lemma_half_block_lights(m[(2 * oy * w + sx) as int], m[((2 * oy + 1) * w + sx) as int]);
}

fn block_char(top: bool, bottom: bool) -> (c: char)
    ensures
        c == half_block(top, bottom),
{
    if top && bottom {
        '█'
    } else if top {
        '▀'
    } else if bottom {
        '▄'
    } else {
        ' '
    }
}

/// The output size of the preview, in integer arithmetic.
proof fn lemma_mul_bound(a: int, b: int, ca: int, cb: int)
    requires
        0 <= a <= ca,
        0 <= b <= cb,
    ensures
        0 <= a * b <= ca * cb,
{
    assert(0 <= a * b <= ca * cb) by (nonlinear_arith)
        requires
            0 <= a <= ca,
            0 <= b <= cb,
    ;
}

proof fn lemma_round_div_le(p: int, d: int, hi: int)
    requires
        d >= 1,
        0 <= p <= hi * d,
        hi >= 0,
    ensures
        (2 * p + d) / (2 * d) <= hi,
{
    assert((2 * p + d) / (2 * d) <= hi) by (nonlinear_arith)
        requires
            d >= 1,
            0 <= p <= hi * d,
            hi >= 0,
    ;
}

/// `round(a * m / den)`, clamped to `[1, hi]`.
fn fit_side(a: usize, m: usize, den: usize, hi: usize) -> (r: usize)
    requires
        1 <= m <= 0x10000,
        1 <= hi <= 0x10000,
        den >= 1,
        a * m <= hi * den,
    ensures
        r as nat == clamp(round_div(a as nat * m as nat, den as nat), 1, hi as nat),
{
    let a128 = a as u128;
    let m128 = m as u128;
    let d128 = den as u128;
    proof {
        lemma_mul_bound(a as int, m as int, 0xffff_ffff_ffff_ffff, 0x10000);
    }
    let p = a128 * m128;
    proof {
        assert(2 * p + d128 <= 0x30000 * 0x1_0000_0000_0000_0000u128);
        lemma_round_div_le(p as int, den as int, hi as int);
    }
    let q = (2 * p + d128) / (2 * d128);
    if q < 1 {
        1
    } else {
        q as usize
    }
}

fn fit_size_exec(src_w: usize, src_h: usize, mw: usize, mh: usize, preserve_aspect: bool) -> (r: (usize, usize))
    requires
        src_w >= 1,
        src_h >= 1,
        1 <= mw <= 0x10000,
        1 <= mh <= 0x10000,
    ensures
        (r.0 as nat, r.1 as nat) == fit_size(src_w as nat, src_h as nat, mw as nat, mh as nat, preserve_aspect),
        1 <= r.0 <= 0x10000,
        1 <= r.1 <= 0x10000,
{
    if !preserve_aspect {
        return (mw, mh);
    }
    proof {
        lemma_mul_bound(mw as int, src_h as int, 0x10000, 0xffff_ffff_ffff_ffff);
        lemma_mul_bound(mh as int, src_w as int, 0x10000, 0xffff_ffff_ffff_ffff);
    }
    let lhs = (mw as u128) * (src_h as u128);
    let rhs = (mh as u128) * (src_w as u128);
    if lhs <= rhs {
        proof {
            assert(src_h * mw == mw * src_h) by (nonlinear_arith);
            assert(mh * src_w == mh * src_w);
        }
        let h = fit_side(src_h, mw, src_w, mh);
        (mw, h)
    } else {
        proof {
            assert(src_w * mh == mh * src_w) by (nonlinear_arith);
            assert(mw * src_h == mw * src_h);
        }
        let w = fit_side(src_w, mh, src_h, mw);
        (w, mh)
    }
}

fn preview_size_exec(src_w: usize, src_h: usize, max_w: u16, max_h: u16, allow_upscale: bool, preserve_aspect: bool) -> (r: (usize, usize))
    requires
        src_w >= 1,
        src_h >= 1,
    ensures
        (r.0 as nat, r.1 as nat) == preview_size(src_w as nat, src_h as nat, max_w as nat, max_h as nat, allow_upscale, preserve_aspect),
        1 <= r.0 <= 0x10000,
        1 <= r.1 <= 0x10000,
{
    let mw0 = max_w as usize;
    let mh0 = max_h as usize;
    let base_w = if allow_upscale { mw0 } else if src_w < mw0 { src_w } else { mw0 };
    let b = if base_w < 1 { 1 } else { base_w };
    let v = (b * 88 + 50) / 100;
    let mw = if v < 1 { 1 } else { v };
    let mh1 = if allow_upscale { mh0 } else if src_h < mh0 { src_h } else { mh0 };
    let mh = if mh1 < 1 { 1 } else { mh1 };
    fit_size_exec(src_w, src_h, mw, mh, preserve_aspect)
}

fn render_row(matrix: &Vec<bool>, src_w: usize, src_h: usize, out_w: usize, out_h: usize, oy: usize) -> (r: Vec<char>)
    requires
        src_w * src_h <= matrix.len(),
        1 <= src_w,
        1 <= src_h,
        1 <= out_w <= 0x10000,
        1 <= out_h <= 0x10000,
        oy < out_h,
    ensures
        r@ == preview_row(matrix@, src_w as nat, src_h as nat, out_w as nat, out_h as nat, oy as nat),
{
    let sy_top = sample_idx(2 * oy, 2 * out_h, src_h);
    let sy_bottom = sample_idx(2 * oy + 1, 2 * out_h, src_h);
    let mut row: Vec<char> = Vec::new();
    push_str(&mut row, "    ");
    proof {
        reveal_strlit("    ");
    }
    let mut ox: usize = 0;
    while ox < out_w
        invariant
            ox <= out_w,
            src_w * src_h <= matrix.len(),
            1 <= src_w,
            1 <= src_h,
            1 <= out_w <= 0x10000,
            sy_top < src_h,
            sy_bottom < src_h,
            sy_top as nat == sample_index(2 * oy as nat, 2 * out_h as nat, src_h as nat),
            sy_bottom as nat == sample_index((2 * oy + 1) as nat, 2 * out_h as nat, src_h as nat),
            row@.len() == 4 + 2 * ox,
            forall|k: int| 0 <= k < 4 ==> row@[k] == ' ',
            forall|j: int| 4 <= j < 4 + 2 * ox ==> #[trigger] row@[j] == half_block(
                matrix@[sy_top * src_w + sample_index(((j - 4) / 2) as nat, out_w as nat, src_w as nat)],
                matrix@[sy_bottom * src_w + sample_index(((j - 4) / 2) as nat, out_w as nat, src_w as nat)],
            ),
        decreases out_w - ox,
    {
        let sx = sample_idx(ox, out_w, src_w);
        proof {
            lemma_index_bound(src_w as nat, src_h as nat, sx as int, sy_top as int);
            lemma_index_bound(src_w as nat, src_h as nat, sx as int, sy_bottom as int);
        }
        let top_on = matrix[sy_top * src_w + sx];
        let bottom_on = matrix[sy_bottom * src_w + sx];
        let glyph = block_char(top_on, bottom_on);
        row.push(glyph);
        row.push(glyph);
        proof {
            assert((2 * ox) / 2 == ox as int);
            assert((2 * ox + 1) / 2 == ox as int);
        }
        ox = ox + 1;
    }
    proof {
        assert(row@ =~= preview_row(matrix@, src_w as nat, src_h as nat, out_w as nat, out_h as nat, oy as nat));
    }
    row
}

fn line_of(lit: &str) -> (r: Vec<String>)
    ensures
        r@.len() == 1,
        r@[0]@ == lit@,
{
    let mut v: Vec<String> = Vec::new();
    v.push(lit.to_owned());
    v
}

/// Renders a `src_w` x `src_h` binary matrix as preview lines inside a
/// `max_w` x `max_h` cell area: each cell shows two vertically stacked
/// pixels with half blocks, drawn two characters wide.
pub fn render_binary_preview_lines(
    matrix: &Vec<bool>,
    src_w: usize,
    src_h: usize,
    max_w: u16,
    max_h: u16,
    allow_upscale: bool,
    trim_empty_rows: bool,
    preserve_aspect: bool,
) -> (r: Vec<String>)
    requires
        src_w * src_h <= matrix.len(),
    ensures
        crate::codepoints::views(r@) == preview_render(
            matrix@,
            src_w as nat,
            src_h as nat,
            max_w as nat,
            max_h as nat,
            allow_upscale,
            trim_empty_rows,
            preserve_aspect,
        ),
{
    if matrix.len() == 0 || src_w == 0 || src_h == 0 || max_w == 0 || max_h == 0 {
        let r = line_of("    [Preview too small]");
        proof {
            assert(crate::codepoints::views(r@) =~= seq![too_small_line()]);
        }
        return r;
    }
    let (out_w, out_h) = preview_size_exec(src_w, src_h, max_w, max_h, allow_upscale, preserve_aspect);
    let ghost rows = Seq::new(out_h as nat, |oy: int| preview_row(matrix@, src_w as nat, src_h as nat, out_w as nat, out_h as nat, oy as nat));
    let mut out: Vec<String> = Vec::new();
    let mut oy: usize = 0;
    while oy < out_h
        invariant
            oy <= out_h,
            src_w * src_h <= matrix.len(),
            1 <= src_w,
            1 <= src_h,
            1 <= out_w <= 0x10000,
            1 <= out_h <= 0x10000,
            rows == Seq::new(out_h as nat, |oy: int| preview_row(matrix@, src_w as nat, src_h as nat, out_w as nat, out_h as nat, oy as nat)),
            crate::codepoints::views(out@) == (if trim_empty_rows {
                visible_rows(rows.take(oy as int))
            } else {
                rows.take(oy as int)
            }),
        decreases out_h - oy,
    {
        let row = render_row(matrix, src_w, src_h, out_w, out_h, oy);
        proof {
            assert(rows.take(oy + 1).drop_last() =~= rows.take(oy as int));
            assert(rows.take(oy + 1).last() == row@);
        }
        let keep = if trim_empty_rows {
            crate::text::contains_char(&row, '█') || crate::text::contains_char(&row, '▀')
                || crate::text::contains_char(&row, '▄')
        } else {
            true
        };
        let ghost before = crate::codepoints::views(out@);
        if keep {
            out.push(string_of(&row));
            proof {
                assert(crate::codepoints::views(out@) =~= before.push(row@));
            }
        }
        proof {
            if !trim_empty_rows {
                assert(rows.take(oy + 1) =~= rows.take(oy as int).push(row@));
            }
        }
        oy = oy + 1;
    }
    proof {
        assert(rows.take(out_h as int) =~= rows);
    }
    if out.len() == 0 {
        let r = line_of("    [No visible pixels at threshold]");
        proof {
            assert(crate::codepoints::views(r@) =~= seq![no_pixels_line()]);
        }
        return r;
    }
    out
}

// ---------------------------------------------------------------------------
// Glyph previews
// ---------------------------------------------------------------------------
/// The preview of a glyph at `threshold`: its active rows (when `crop`),
/// scaled to fit.
pub open spec fn glyph_preview(coverage: Seq<u8>, w: nat, h: nat, threshold: u8, invert: bool, max_w: nat, max_h: nat, crop: bool, trim: bool) -> Seq<Seq<char>> {
    if w == 0 || h == 0 || max_w == 0 || max_h == 0 {
        seq![too_small_line()]
    } else {
        let m = threshold_matrix(coverage, w, h, threshold, invert);
        if crop {
            if blank(m, w, h) {
                seq![no_pixels_line()]
            } else {
                let top = first_row(m, w, h);
                let oh = (last_row(m, w, h) - top + 1) as nat;
                preview_render(row_band(m, w, top, oh), w, oh, max_w, max_h, true, trim, true)
            }
        } else {
            preview_render(m, w, h, max_w, max_h, true, trim, true)
        }
    }
}

fn cropped_preview(matrix: &Vec<bool>, w: usize, h: usize, max_w: u16, max_h: u16, trim: bool) -> (r: Vec<String>)
    requires
        w * h <= matrix.len(),
        matrix.len() > 0,
        1 <= w,
        1 <= h,
        max_w > 0,
        max_h > 0,
    ensures
        blank(matrix@, w as nat, h as nat) ==> crate::codepoints::views(r@) == seq![no_pixels_line()],
        !blank(matrix@, w as nat, h as nat) ==> ({
            let top = first_row(matrix@, w as nat, h as nat);
            let oh = (last_row(matrix@, w as nat, h as nat) - top + 1) as nat;
            crate::codepoints::views(r@) == preview_render(row_band(matrix@, w as nat, top, oh), w as nat, oh, max_w as nat, max_h as nat, true, trim, true)
        }),
{
    match crop_binary_matrix_to_active_y_bounds(matrix, w, h) {
        Some((c, cw, ch)) => {
            proof {
                assert(ch <= h);
                assert(ch * w <= h * w) by (nonlinear_arith)
                    requires
                        ch <= h,
                ;
            }
            render_binary_preview_lines(&c, cw, ch, max_w, max_h, true, trim, true)
        },
        None => {
            let r = line_of("    [No visible pixels at threshold]");
            proof {
                assert(crate::codepoints::views(r@) =~= seq![no_pixels_line()]);
            }
            r
        },
    }
}

/// The preview of a glyph at `threshold`: cropped to its active rows and
/// scaled to fit without stretching.
pub fn preview_lines(glyph: &PreprocessedGlyph, threshold: u8, invert: bool, max_w: u16, max_h: u16) -> (r: Vec<String>)
    requires
        glyph.width as nat * glyph.height as nat <= glyph.coverage@.len(),
    ensures
        crate::codepoints::views(r@) == glyph_preview(glyph.coverage@, glyph.width as nat, glyph.height as nat, threshold, invert, max_w as nat, max_h as nat, true, true),
{
    preview_lines_from_parts(&glyph.coverage, glyph.width, glyph.height, threshold, invert, max_w, max_h, true, true)
}

fn preview_lines_from_parts(coverage: &Vec<u8>, width: u32, height: u32, threshold: u8, invert: bool, max_w: u16, max_h: u16, crop: bool, trim: bool) -> (r: Vec<String>)
    requires
        width as nat * height as nat <= coverage@.len(),
    ensures
        crate::codepoints::views(r@) == glyph_preview(coverage@, width as nat, height as nat, threshold, invert, max_w as nat, max_h as nat, crop, trim),
{
    let w = width as usize;
    let h = height as usize;
    if w == 0 || h == 0 || max_w == 0 || max_h == 0 {
        let r = line_of("    [Preview too small]");
        proof {
            assert(crate::codepoints::views(r@) =~= seq![too_small_line()]);
        }
        return r;
    }
    let matrix = thresholded(coverage, w, h, threshold, invert);
    proof {
        assert(w * h >= 1) by (nonlinear_arith)
            requires
                w >= 1,
                h >= 1,
        ;
    }
    if crop {
        cropped_preview(&matrix, w, h, max_w, max_h, trim)
    } else {
        render_binary_preview_lines(&matrix, w, h, max_w, max_h, true, trim, true)
    }
}

/// The preview of a glyph at `threshold` over its whole frame (no cropping),
/// so that the frames of an animation keep one scale.
pub fn preview_lines_stable_frame(glyph: &PreprocessedGlyph, threshold: u8, invert: bool, max_w: u16, max_h: u16) -> (r: Vec<String>)
    requires
        glyph.width as nat * glyph.height as nat <= glyph.coverage@.len(),
    ensures
        crate::codepoints::views(r@) == glyph_preview(glyph.coverage@, glyph.width as nat, glyph.height as nat, threshold, invert, max_w as nat, max_h as nat, false, false),
{
    preview_lines_from_parts(&glyph.coverage, glyph.width, glyph.height, threshold, invert, max_w, max_h, false, false)
}

pub open spec fn unavailable_line() -> Seq<char> {
    "    [Preview unavailable]"@
}

/// The preview of a raw coverage map (cropped to its active rows); a map of
/// the wrong size is reported as unavailable.
pub fn preview_lines_from_coverage_stable_frame(coverage: &Vec<u8>, width_u32: u32, height_u32: u32, threshold: u8, invert: bool, max_w: u16, max_h: u16) -> (r: Vec<String>)
    ensures
        (width_u32 == 0 || height_u32 == 0 || max_w == 0 || max_h == 0) ==> crate::codepoints::views(r@) == seq![too_small_line()],
        !(width_u32 == 0 || height_u32 == 0 || max_w == 0 || max_h == 0) && coverage@.len() != width_u32 as nat * height_u32 as nat ==> crate::codepoints::views(r@) == seq![unavailable_line()],
        coverage@.len() == width_u32 as nat * height_u32 as nat ==> crate::codepoints::views(r@) == glyph_preview(coverage@, width_u32 as nat, height_u32 as nat, threshold, invert, max_w as nat, max_h as nat, true, true),
{
    if width_u32 == 0 || height_u32 == 0 || max_w == 0 || max_h == 0 {
        let r = line_of("    [Preview too small]");
        proof {
            assert(crate::codepoints::views(r@) =~= seq![too_small_line()]);
        }
        return r;
    }
    proof {
        assert((width_u32 as u64) * (height_u32 as u64) <= 0xffff_ffff * 0xffff_ffffu64) by (nonlinear_arith);
    }
    let n = (width_u32 as u64) * (height_u32 as u64);
    if coverage.len() as u64 != n {
        let r = line_of("    [Preview unavailable]");
        proof {
            assert(crate::codepoints::views(r@) =~= seq![unavailable_line()]);
        }
        return r;
    }
    preview_lines_from_parts(coverage, width_u32, height_u32, threshold, invert, max_w, max_h, true, true)
}


// ---------------------------------------------------------------------------
// Grid compositions
// ---------------------------------------------------------------------------
pub open spec fn unavailable_composition_line() -> Seq<char> {
    "    [Composition preview unavailable]"@
}

/// The value that tile `t` of a `rows` x `cols` grid of `tw` x `th` tiles
/// gives pixel (`x`, `y`) of the whole grid, when it covers that pixel: a
/// tile of another grid or size covers nothing, nor does a position past
/// the end of its coverage map.
pub open spec fn tile_pixel(
    t: InteractiveGlyph,
    rows: nat,
    cols: nat,
    tw: nat,
    th: nat,
    threshold: u8,
    invert: bool,
    x: int,
    y: int,
) -> Option<bool> {
    match t.glyph.composition_tile {
        Some(info) => if info.rows == rows && info.cols == cols && t.glyph.width == tw
            && t.glyph.height == th {
            let lx = x - info.col * tw;
            let ly = y - info.row * th;
            if 0 <= lx < tw && 0 <= ly < th && ly * tw + lx < t.glyph.coverage@.len() {
                Some(pixel_on(t.glyph.coverage@[ly * tw + lx], threshold, invert))
            } else {
                None
            }
        } else {
            None
        },
        None => None,
    }
}

/// Pixel (`x`, `y`) of the grid drawn from the first `n` tiles: the last
/// of them that covers it decides, and an uncovered pixel is off.
pub open spec fn composed_pixel(
    tiles: Seq<&InteractiveGlyph>,
    n: nat,
    rows: nat,
    cols: nat,
    tw: nat,
    th: nat,
    threshold: u8,
    invert: bool,
    x: int,
    y: int,
) -> bool
    decreases n,
{
    if n == 0 || n > tiles.len() {
        false
    } else {
        match tile_pixel(*tiles[n - 1], rows, cols, tw, th, threshold, invert, x, y) {
            Some(v) => v,
            None => composed_pixel(tiles, (n - 1) as nat, rows, cols, tw, th, threshold, invert, x, y),
        }
    }
}

/// The `cols * tw` x `rows * th` matrix of a grid drawn from its tiles.
pub open spec fn composition_matrix(
    tiles: Seq<&InteractiveGlyph>,
    rows: nat,
    cols: nat,
    tw: nat,
    th: nat,
    threshold: u8,
    invert: bool,
) -> Seq<bool> {
    let w = cols * tw;
    let h = rows * th;
    Seq::new(
        w * h,
        |i: int| composed_pixel(tiles, tiles.len(), rows, cols, tw, th, threshold, invert, i % (w as int), i / (w as int)),
    )
}

fn tile_pixel_value(
    t: &InteractiveGlyph,
    rows: usize,
    cols: usize,
    tw: usize,
    th: usize,
    threshold: u8,
    invert: bool,
    x: usize,
    y: usize,
) -> (r: Option<bool>)
    requires
        tw * th <= usize::MAX,
    ensures
        r == tile_pixel(*t, rows as nat, cols as nat, tw as nat, th as nat, threshold, invert, x as int, y as int),
{
    let info = match t.glyph.composition_tile {
        Some(info) => info,
        None => return None,
    };
    if info.rows != rows || info.cols != cols || t.glyph.width as usize != tw || t.glyph.height as usize != th {
        return None;
    }
    let ox = match info.col.checked_mul(tw) {
        Some(v) => v,
        None => return None,
    };
    let oy = match info.row.checked_mul(th) {
        Some(v) => v,
        None => return None,
    };
    if x < ox || y < oy {
        return None;
    }
    let lx = x - ox;
    let ly = y - oy;
    if lx >= tw || ly >= th {
        return None;
    }
    proof {
        assert(ly * tw + lx < tw * th) by (nonlinear_arith)
            requires
                lx < tw,
                ly < th,
        ;
    }
    let idx = ly * tw + lx;
    if idx < t.glyph.coverage.len() {
        Some((t.glyph.coverage[idx] >= threshold) != invert)
    } else {
        None
    }
}

fn composed_pixel_value(
    tiles: &[&InteractiveGlyph],
    rows: usize,
    cols: usize,
    tw: usize,
    th: usize,
    threshold: u8,
    invert: bool,
    x: usize,
    y: usize,
) -> (r: bool)
    requires
        tw * th <= usize::MAX,
    ensures
        r == composed_pixel(tiles@, tiles@.len(), rows as nat, cols as nat, tw as nat, th as nat, threshold, invert, x as int, y as int),
{
    let mut k = tiles.len();
    while k > 0
        invariant
            k <= tiles@.len(),
            tw * th <= usize::MAX,
            composed_pixel(tiles@, tiles@.len(), rows as nat, cols as nat, tw as nat, th as nat, threshold, invert, x as int, y as int)
                == composed_pixel(tiles@, k as nat, rows as nat, cols as nat, tw as nat, th as nat, threshold, invert, x as int, y as int),
        decreases k,
    {
        match tile_pixel_value(tiles[k - 1], rows, cols, tw, th, threshold, invert, x, y) {
            Some(v) => return v,
            None => {},
        }
        k = k - 1;
    }
    false
}

fn composition_matrix_of(
    tiles: &[&InteractiveGlyph],
    rows: usize,
    cols: usize,
    tw: usize,
    th: usize,
    threshold: u8,
    invert: bool,
) -> (m: Vec<bool>)
    requires
        rows >= 1,
        cols >= 1,
        tw >= 1,
        th >= 1,
        (cols * tw) * (rows * th) <= usize::MAX,
    ensures
        m@ == composition_matrix(tiles@, rows as nat, cols as nat, tw as nat, th as nat, threshold, invert),
        cols * tw <= usize::MAX,
        rows * th <= usize::MAX,
        m@.len() == (cols * tw) * (rows * th),
{
    proof {
        assert(cols * tw <= (cols * tw) * (rows * th)) by (nonlinear_arith)
            requires
                rows >= 1,
                th >= 1,
                cols * tw >= 0,
        ;
        assert(tw * th <= (cols * tw) * (rows * th)) by (nonlinear_arith)
            requires
                rows >= 1,
                cols >= 1,
                tw >= 1,
                th >= 1,
        ;
        assert(rows * th <= (cols * tw) * (rows * th)) by (nonlinear_arith)
            requires
                cols >= 1,
                tw >= 1,
                rows * th >= 0,
        ;
        assert(cols * tw >= 1) by (nonlinear_arith)
            requires
                cols >= 1,
                tw >= 1,
        ;
    }
    let w = cols * tw;
    let h = rows * th;
    let n = w * h;
    let mut m: Vec<bool> = Vec::new();
    let mut i: usize = 0;
    while i < n
        invariant
            w == cols * tw,
            h == rows * th,
            n == w * h,
            w >= 1,
            tw * th <= usize::MAX,
            i <= n,
            m@.len() == i,
            forall|j: int| 0 <= j < i ==> #[trigger] m@[j] == composed_pixel(tiles@, tiles@.len(), rows as nat, cols as nat, tw as nat, th as nat, threshold, invert, j % (w as int), j / (w as int)),
        decreases n - i,
    {
        let v = composed_pixel_value(tiles, rows, cols, tw, th, threshold, invert, i % w, i / w);
        m.push(v);
        i = i + 1;
    }
    proof {
        assert(m@ =~= composition_matrix(tiles@, rows as nat, cols as nat, tw as nat, th as nat, threshold, invert));
    }
    m
}

/// The first tile's width and height, when there is a first tile.
pub open spec fn first_tile_size(tiles: Seq<&InteractiveGlyph>) -> (nat, nat) {
    if tiles.len() > 0 {
        (tiles[0].glyph.width as nat, tiles[0].glyph.height as nat)
    } else {
        (0, 0)
    }
}

/// A grid preview cut to its active area and scaled to fit (no upscaling),
/// empty rows dropped.
pub open spec fn composition_preview(
    tiles: Seq<&InteractiveGlyph>,
    threshold: u8,
    invert: bool,
    rows: nat,
    cols: nat,
    max_w: nat,
    max_h: nat,
) -> Seq<Seq<char>> {
    let (tw, th) = first_tile_size(tiles);
    if tiles.len() == 0 || rows == 0 || cols == 0 || max_w == 0 || max_h == 0 || tw == 0 || th == 0 {
        seq![unavailable_composition_line()]
    } else {
        let m = composition_matrix(tiles, rows, cols, tw, th, threshold, invert);
        let w = cols * tw;
        let h = rows * th;
        if blank(m, w, h) {
            seq![no_pixels_line()]
        } else {
            let top = first_row(m, w, h);
            let left = first_col(m, w, h);
            let ow = (last_col(m, w, h) - left + 1) as nat;
            let oh = (last_row(m, w, h) - top + 1) as nat;
            preview_render(window(m, w, left, top, ow, oh), ow, oh, max_w, max_h, false, true, true)
        }
    }
}

/// The grid's whole frame (no cropping), so that every frame of a grid
/// animation keeps one scale.
pub open spec fn composition_preview_stable(
    tiles: Seq<&InteractiveGlyph>,
    threshold: u8,
    invert: bool,
    rows: nat,
    cols: nat,
    max_w: nat,
    max_h: nat,
) -> Seq<Seq<char>> {
    let (tw, th) = first_tile_size(tiles);
    if rows == 0 || cols == 0 || tiles.len() == 0 || tw == 0 || th == 0 {
        seq![unavailable_composition_line()]
    } else {
        preview_render(composition_matrix(tiles, rows, cols, tw, th, threshold, invert), cols * tw, rows * th, max_w, max_h, true, false, true)
    }
}

/// The preview of a grid made of `tiles`, cropped to its active area.
pub fn composition_preview_lines(
    tiles: &[&InteractiveGlyph],
    threshold: u8,
    invert: bool,
    rows: usize,
    cols: usize,
    max_w: u16,
    max_h: u16,
) -> (r: Vec<String>)
    requires
        tiles@.len() > 0 ==> (cols * tiles@[0].glyph.width) * (rows * tiles@[0].glyph.height) <= usize::MAX,
    ensures
        crate::codepoints::views(r@) == composition_preview(tiles@, threshold, invert, rows as nat, cols as nat, max_w as nat, max_h as nat),
{
    if tiles.len() == 0 || rows == 0 || cols == 0 || max_w == 0 || max_h == 0 {
        let r = line_of("    [Composition preview unavailable]");
        proof {
            assert(crate::codepoints::views(r@) =~= seq![unavailable_composition_line()]);
        }
        return r;
    }
    let tw = tiles[0].glyph.width as usize;
    let th = tiles[0].glyph.height as usize;
    if tw == 0 || th == 0 {
        let r = line_of("    [Composition preview unavailable]");
        proof {
            assert(crate::codepoints::views(r@) =~= seq![unavailable_composition_line()]);
        }
        return r;
    }
    let m = composition_matrix_of(tiles, rows, cols, tw, th, threshold, invert);
    let w = cols * tw;
    let h = rows * th;
    proof {
        assert(w * h >= 1) by (nonlinear_arith)
            requires
                w == cols * tw,
                h == rows * th,
                cols >= 1,
                tw >= 1,
                rows >= 1,
                th >= 1,
        ;
        assert(first_tile_size(tiles@) == (tw as nat, th as nat));
    }
    match crop_binary_matrix_to_active_bounds(&m, w, h) {
        Some((c, cw, ch)) => render_binary_preview_lines(&c, cw, ch, max_w, max_h, false, true, true),
        None => {
            let r = line_of("    [No visible pixels at threshold]");
            proof {
                assert(crate::codepoints::views(r@) =~= seq![no_pixels_line()]);
            }
            r
        },
    }
}

/// The preview of a grid made of `tiles` over its whole frame.
pub fn composition_preview_lines_stable_frame(
    tiles: &[&InteractiveGlyph],
    threshold: u8,
    invert: bool,
    rows: usize,
    cols: usize,
    max_w: u16,
    max_h: u16,
) -> (r: Vec<String>)
    requires
        tiles@.len() > 0 ==> (cols * tiles@[0].glyph.width) * (rows * tiles@[0].glyph.height) <= usize::MAX,
    ensures
        crate::codepoints::views(r@) == composition_preview_stable(tiles@, threshold, invert, rows as nat, cols as nat, max_w as nat, max_h as nat),
{
    if rows == 0 || cols == 0 || tiles.len() == 0 {
        let r = line_of("    [Composition preview unavailable]");
        proof {
            assert(crate::codepoints::views(r@) =~= seq![unavailable_composition_line()]);
        }
        return r;
    }
    let tw = tiles[0].glyph.width as usize;
    let th = tiles[0].glyph.height as usize;
    if tw == 0 || th == 0 {
        let r = line_of("    [Composition preview unavailable]");
        proof {
            assert(crate::codepoints::views(r@) =~= seq![unavailable_composition_line()]);
        }
        return r;
    }
    let m = composition_matrix_of(tiles, rows, cols, tw, th, threshold, invert);
    render_binary_preview_lines(&m, cols * tw, rows * th, max_w, max_h, true, false, true)
}


proof fn lemma_round_div(n: nat, d: nat)
    requires
        d > 0,
    ensures
        2 * d * round_div(n, d) <= 2 * n + d,
        2 * n < 2 * d * round_div(n, d) + d,
{
    let r = round_div(n, d);
    let q = 2 * n + d;
    assert(r == q / (2 * d));
    vstd::arithmetic::div_mod::lemma_fundamental_div_mod(q as int, (2 * d) as int);
    let m = q % (2 * d);
    assert(0 <= m < 2 * d) by {
        vstd::arithmetic::div_mod::lemma_mod_bound(q as int, (2 * d) as int);
    }
    assert(q == 2 * d * r + m);
}

/// A preview keeps the shape of its source: inside the area it is fitted
/// to, one side fills the area and the other is the proportional length
/// rounded to the nearest cell (or one cell), so neither is stretched.
pub proof fn lemma_fit_keeps_aspect(src_w: nat, src_h: nat, mw: nat, mh: nat)
    requires
        src_w > 0,
        src_h > 0,
        mw > 0,
        mh > 0,
    ensures
        ({
            let (ow, oh) = fit_size(src_w, src_h, mw, mh, true);
            &&& 1 <= ow <= mw
            &&& 1 <= oh <= mh
            &&& (ow == mw && (oh == 1 || -(src_w as int) <= 2 * (oh * src_w - ow * src_h) <= src_w))
                || (oh == mh && (ow == 1 || -(src_h as int) <= 2 * (ow * src_h - oh * src_w) <= src_h))
        }),
{
    if mw * src_h <= mh * src_w {
        let n = src_h * mw;
        let r = round_div(n, src_w);
        lemma_round_div(n, src_w);
        assert(src_w * r <= src_w * mh + src_w) by (nonlinear_arith)
            requires
                2 * src_w * r <= 2 * n + src_w,
                n == src_h * mw,
                mw * src_h <= mh * src_w,
                src_w > 0,
        ;
        assert(r <= mh) by (nonlinear_arith)
            requires
                2 * src_w * r <= 2 * (src_h * mw) + src_w,
                mw * src_h <= mh * src_w,
                src_w > 0,
        ;
        if r >= 1 {
            assert(2 * (r * src_w - mw * src_h) == 2 * src_w * r - 2 * n) by (nonlinear_arith)
                requires
                    n == src_h * mw,
            ;
        }
    } else {
        let n = src_w * mh;
        let r = round_div(n, src_h);
        lemma_round_div(n, src_h);
        assert(r <= mw) by (nonlinear_arith)
            requires
                2 * src_h * r <= 2 * (src_w * mh) + src_h,
                mw * src_h > mh * src_w,
                src_h > 0,
        ;
        if r >= 1 {
            assert(2 * (r * src_h - mh * src_w) == 2 * src_h * r - 2 * n) by (nonlinear_arith)
                requires
                    n == src_w * mh,
            ;
        }
    }
}

} // verus!
