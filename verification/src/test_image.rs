//! Test images of a glyph or a grid at its working threshold: every pixel
//! is either opaque black (drawn) or transparent white.
use vstd::prelude::*;
use crate::model::InteractiveGlyph;
use crate::preview::{pixel_on, threshold_matrix};
use crate::text::{decimal, push_decimal, push_str, string_of};

verus! {

/// A `width` x `height` image, row-major: `black[y * width + x]` says
/// whether pixel (x, y) is opaque black; the others are transparent white.
#[derive(Debug, Clone)]
pub struct TestImage {
    pub width: u32,
    pub height: u32,
    pub black: Vec<bool>,
}

pub open spec fn mismatch_message(what: Seq<char>, key: Seq<char>, expected: nat, got: nat) -> Seq<char> {
    what + " coverage mismatch for "@ + key + " (expected "@ + decimal(expected) + ", got "@ + decimal(got) + ")"@
}

fn mismatch_error(what: &str, key: &str, expected: usize, got: usize) -> (r: String)
    ensures
        r@ == mismatch_message(what@, key@, expected as nat, got as nat),
{
    let mut out: Vec<char> = Vec::new();
    push_str(&mut out, what);
    push_str(&mut out, " coverage mismatch for ");
    push_str(&mut out, key);
    push_str(&mut out, " (expected ");
    push_decimal(&mut out, expected as u64);
    push_str(&mut out, ", got ");
    push_decimal(&mut out, got as u64);
    push_str(&mut out, ")");
    proof {
        assert(out@ =~= mismatch_message(what@, key@, expected as nat, got as nat));
    }
    string_of(&out)
}

/// The test image of a coverage map: a pixel is black where the map is on
/// at `threshold` (flipped by `invert`).  A map of the wrong size is
/// refused.
pub fn render_test_image_from_coverage(
    coverage: &Vec<u8>,
    width_u32: u32,
    height_u32: u32,
    threshold: u8,
    invert: bool,
    context_key: &str,
) -> (r: Result<TestImage, String>)
    ensures
        width_u32 * height_u32 > usize::MAX ==> (r matches Err(m) && m@ == "glyph pixel count overflow"@),
        width_u32 * height_u32 <= usize::MAX && coverage@.len() != width_u32 * height_u32 ==> (r matches Err(m)
            && m@ == mismatch_message("glyph"@, context_key@, (width_u32 * height_u32) as nat, coverage@.len())),
        coverage@.len() == width_u32 * height_u32 ==> (r matches Ok(img) && img.width == width_u32
            && img.height == height_u32 && img.black@ == threshold_matrix(
            coverage@,
            width_u32 as nat,
            height_u32 as nat,
            threshold,
            invert,
        )),
{
    let width = width_u32 as usize;
    let height = height_u32 as usize;
    let len = coverage.len();
    let expected = match width.checked_mul(height) {
        Some(n) => n,
        None => return Err("glyph pixel count overflow".to_owned()),
    };
    if coverage.len() != expected {
        return Err(mismatch_error("glyph", context_key, expected, coverage.len()));
    }
    let mut black: Vec<bool> = Vec::new();
    let mut i: usize = 0;
    while i < expected
        invariant
            expected == coverage@.len(),
            expected == width_u32 * height_u32,
            i <= expected,
            black@.len() == i,
            forall|j: int| 0 <= j < i ==> #[trigger] black@[j] == pixel_on(coverage@[j], threshold, invert),
        decreases expected - i,
    {
        black.push((coverage[i] >= threshold) != invert);
        i = i + 1;
    }
    proof {
        assert(black@ =~= threshold_matrix(coverage@, width_u32 as nat, height_u32 as nat, threshold, invert));
    }
    Ok(TestImage { width: width_u32, height: height_u32, black })
}

/// The test image of one glyph at its working threshold and invert.
pub fn render_test_image_from_single_glyph(glyph: &InteractiveGlyph) -> (r: Result<TestImage, String>)
    ensures
        glyph.glyph.width * glyph.glyph.height > usize::MAX ==> (r matches Err(m) && m@ == "glyph pixel count overflow"@),
        glyph.glyph.width * glyph.glyph.height <= usize::MAX && glyph.glyph.coverage@.len() != glyph.glyph.width
            * glyph.glyph.height ==> (r matches Err(m) && m@ == mismatch_message(
            "glyph"@,
            glyph.glyph.source_parent_key@,
            (glyph.glyph.width * glyph.glyph.height) as nat,
            glyph.glyph.coverage@.len(),
        )),
        glyph.glyph.coverage@.len() == glyph.glyph.width * glyph.glyph.height ==> (r matches Ok(img) && img.width
            == glyph.glyph.width && img.height == glyph.glyph.height && img.black@ == threshold_matrix(
            glyph.glyph.coverage@,
            glyph.glyph.width as nat,
            glyph.glyph.height as nat,
            glyph.working_threshold,
            glyph.working_invert,
        )),
{
    render_test_image_from_coverage(
        &glyph.glyph.coverage,
        glyph.glyph.width,
        glyph.glyph.height,
        glyph.working_threshold,
        glyph.working_invert,
        glyph.glyph.source_parent_key.as_str(),
    )
}

// ---------------------------------------------------------------------------
// Grids
// ---------------------------------------------------------------------------
/// What is wrong with tile `t` of a `rows` x `cols` grid of `tw` x `th`
/// tiles, if anything: tiles outside the grid (or of no grid) are ignored.
pub open spec fn tile_problem(t: InteractiveGlyph, rows: nat, cols: nat, tw: nat, th: nat) -> Option<Seq<char>> {
    match t.glyph.composition_tile {
        None => None,
        Some(info) => if info.row >= rows || info.col >= cols {
            None
        } else {
            let w = t.glyph.width as nat;
            let h = t.glyph.height as nat;
            if w * h > usize::MAX {
                Some("tile pixel count overflow"@)
            } else if t.glyph.coverage@.len() != w * h {
                Some(mismatch_message("tile"@, t.glyph.source_key@, w * h, t.glyph.coverage@.len()))
            } else if info.col * tw > usize::MAX {
                Some("tile x offset overflow"@)
            } else if info.row * th > usize::MAX {
                Some("tile y offset overflow"@)
            } else {
                None
            }
        },
    }
}

/// The problem of the first tile from `i` on that has one.
pub open spec fn first_tile_problem(tiles: Seq<&InteractiveGlyph>, i: nat, rows: nat, cols: nat, tw: nat, th: nat) -> Option<Seq<char>>
    decreases tiles.len() - i,
{
    if i >= tiles.len() {
        None
    } else {
        match tile_problem(*tiles[i as int], rows, cols, tw, th) {
            Some(m) => Some(m),
            None => first_tile_problem(tiles, i + 1, rows, cols, tw, th),
        }
    }
}

/// Tile `t` draws pixel (`x`, `y`) of the grid: the pixel lies on one of
/// its pixels that is on at its working threshold.
pub open spec fn tile_draws(t: InteractiveGlyph, rows: nat, cols: nat, tw: nat, th: nat, x: int, y: int) -> bool {
    match t.glyph.composition_tile {
        None => false,
        Some(info) => {
            let w = t.glyph.width as int;
            let lx = x - info.col * tw;
            let ly = y - info.row * th;
            &&& info.row < rows
            &&& info.col < cols
            &&& 0 <= lx < w
            &&& 0 <= ly < t.glyph.height
            &&& pixel_on(t.glyph.coverage@[ly * w + lx], t.working_threshold, t.working_invert)
        },
    }
}

/// Some of the first `n` tiles draws pixel (`x`, `y`).
pub open spec fn drawn(tiles: Seq<&InteractiveGlyph>, n: nat, rows: nat, cols: nat, tw: nat, th: nat, x: int, y: int) -> bool
    decreases n,
{
    if n == 0 || n > tiles.len() {
        false
    } else {
        tile_draws(*tiles[n - 1], rows, cols, tw, th, x, y) || drawn(tiles, (n - 1) as nat, rows, cols, tw, th, x, y)
    }
}

/// The pixels of the grid image, `cols * tw` wide.
pub open spec fn grid_image(tiles: Seq<&InteractiveGlyph>, rows: nat, cols: nat, tw: nat, th: nat) -> Seq<bool> {
    let w = tw * cols;
    Seq::new(w * (th * rows), |i: int| drawn(tiles, tiles.len(), rows, cols, tw, th, i % (w as int), i / (w as int)))
}

/// Every pixel a tile draws lies inside the grid image, which fits in
/// `u32` coordinates: the image is drawn pixel by pixel and a pixel outside
/// it could not be set.
pub open spec fn tiles_fit(tiles: Seq<&InteractiveGlyph>, rows: nat, cols: nat) -> bool {
    tiles.len() > 0 ==> {
        let tw = tiles[0].glyph.width as nat;
        let th = tiles[0].glyph.height as nat;
        &&& (tw * cols <= usize::MAX ==> tw * cols <= u32::MAX)
        &&& (th * rows <= usize::MAX ==> th * rows <= u32::MAX)
        &&& (tw * cols <= usize::MAX && th * rows <= usize::MAX ==> (tw * cols) * (th * rows) <= usize::MAX)
        &&& forall|k: int, x: int, y: int|
            0 <= k < tiles.len() && tile_problem(*tiles[k], rows, cols, tw, th) is None
                && #[trigger] tile_draws(*tiles[k], rows, cols, tw, th, x, y) ==> x < tw * cols && y < th * rows
    }
}

fn tile_problem_of(t: &InteractiveGlyph, rows: usize, cols: usize, tw: usize, th: usize) -> (r: Option<String>)
    ensures
        (match r {
            Some(m) => Some(m@),
            None => None,
        }) == tile_problem(*t, rows as nat, cols as nat, tw as nat, th as nat),
{
    let info = match t.glyph.composition_tile {
        Some(info) => info,
        None => return None,
    };
    if info.row >= rows || info.col >= cols {
        return None;
    }
    let w = t.glyph.width as usize;
    let h = t.glyph.height as usize;
    let expected = match w.checked_mul(h) {
        Some(n) => n,
        None => return Some("tile pixel count overflow".to_owned()),
    };
    if t.glyph.coverage.len() != expected {
        return Some(mismatch_error("tile", t.glyph.source_key.as_str(), expected, t.glyph.coverage.len()));
    }
    if info.col.checked_mul(tw).is_none() {
        return Some("tile x offset overflow".to_owned());
    }
    if info.row.checked_mul(th).is_none() {
        return Some("tile y offset overflow".to_owned());
    }
    None
}

fn tile_draws_at(t: &InteractiveGlyph, rows: usize, cols: usize, tw: usize, th: usize, x: usize, y: usize) -> (r: bool)
    requires
        tile_problem(*t, rows as nat, cols as nat, tw as nat, th as nat) is None,
    ensures
        r == tile_draws(*t, rows as nat, cols as nat, tw as nat, th as nat, x as int, y as int),
{
    let info = match t.glyph.composition_tile {
        Some(info) => info,
        None => return false,
    };
    if info.row >= rows || info.col >= cols {
        return false;
    }
    let ox = info.col * tw;
    let oy = info.row * th;
    if x < ox || y < oy {
        return false;
    }
    let lx = x - ox;
    let ly = y - oy;
    let w = t.glyph.width as usize;
    let h = t.glyph.height as usize;
    if lx >= w || ly >= h {
        return false;
    }
    proof {
        assert(ly * w + lx < w * h) by (nonlinear_arith)
            requires
                lx < w,
                ly < h,
        ;
    }
    let idx = ly * w + lx;
    (t.glyph.coverage[idx] >= t.working_threshold) != t.working_invert
}

/// The test image of a grid drawn from its tiles at each tile's working
/// threshold; `None` when there are no tiles, the grid is empty, or no
/// pixel is drawn.  The first tile sets the tile size; a tile whose
/// coverage map has the wrong size is refused.
pub fn render_test_image_from_composition_tiles(rows: usize, cols: usize, tiles: &[&InteractiveGlyph]) -> (r: Result<Option<TestImage>, String>)
    requires
        tiles_fit(tiles@, rows as nat, cols as nat),
    ensures
        (tiles@.len() == 0 || rows == 0 || cols == 0) ==> (r matches Ok(None)),
        tiles@.len() > 0 && rows > 0 && cols > 0 ==> {
            let tw = tiles@[0].glyph.width as nat;
            let th = tiles@[0].glyph.height as nat;
            if tw * cols > usize::MAX {
                r matches Err(m) && m@ == "composition width overflow"@
            } else if th * rows > usize::MAX {
                r matches Err(m) && m@ == "composition height overflow"@
            } else {
                match first_tile_problem(tiles@, 0, rows as nat, cols as nat, tw, th) {
                    Some(p) => r matches Err(m) && m@ == p,
                    None => {
                        let img = grid_image(tiles@, rows as nat, cols as nat, tw, th);
                        if img.contains(true) {
                            r matches Ok(Some(t)) && t.width == tw * cols && t.height == th * rows && t.black@ == img
                        } else {
                            r matches Ok(None)
                        }
                    },
                }
            }
        },
{
    if tiles.len() == 0 || rows == 0 || cols == 0 {
        return Ok(None);
    }
    let tw = tiles[0].glyph.width as usize;
    let th = tiles[0].glyph.height as usize;
    let out_w = match tw.checked_mul(cols) {
        Some(v) => v,
        None => return Err("composition width overflow".to_owned()),
    };
    let out_h = match th.checked_mul(rows) {
        Some(v) => v,
        None => return Err("composition height overflow".to_owned()),
    };
    let mut k: usize = 0;
    while k < tiles.len()
        invariant
            tiles@.len() > 0,
            rows > 0,
            cols > 0,
            tw == tiles@[0].glyph.width,
            th == tiles@[0].glyph.height,
            out_w == tw * cols,
            out_h == th * rows,
            k <= tiles@.len(),
            first_tile_problem(tiles@, 0, rows as nat, cols as nat, tw as nat, th as nat)
                == first_tile_problem(tiles@, k as nat, rows as nat, cols as nat, tw as nat, th as nat),
        decreases tiles@.len() - k,
    {
        match tile_problem_of(tiles[k], rows, cols, tw, th) {
            Some(m) => return Err(m),
            None => {},
        }
        k = k + 1;
    }
    proof {
        assert(out_w <= u32::MAX && out_h <= u32::MAX);
        assert forall|j: int| 0 <= j < tiles@.len() implies tile_problem(*tiles@[j], rows as nat, cols as nat, tw as nat, th as nat) is None by {
            lemma_no_problem_from(tiles@, 0, j as nat, rows as nat, cols as nat, tw as nat, th as nat);
        }
    }
    let n = out_w * out_h;
    let mut black: Vec<bool> = Vec::new();
    let mut any = false;
    let mut i: usize = 0;
    while i < n
        invariant
            n == out_w * out_h,
            out_w == tw * cols,
            out_h == th * rows,
            i <= n,
            black@.len() == i,
            forall|j: int| 0 <= j < tiles@.len() ==> tile_problem(*tiles@[j], rows as nat, cols as nat, tw as nat, th as nat) is None,
            forall|j: int| 0 <= j < i ==> #[trigger] black@[j] == drawn(tiles@, tiles@.len(), rows as nat, cols as nat, tw as nat, th as nat, j % (out_w as int), j / (out_w as int)),
            any <==> black@.contains(true),
        decreases n - i,
    {
        let x = i % out_w;
        let y = i / out_w;
        let mut t = tiles.len();
        let mut on = false;
        while t > 0
            invariant
                t <= tiles@.len(),
                forall|j: int| 0 <= j < tiles@.len() ==> tile_problem(*tiles@[j], rows as nat, cols as nat, tw as nat, th as nat) is None,
                drawn(tiles@, tiles@.len(), rows as nat, cols as nat, tw as nat, th as nat, x as int, y as int)
                    == (on || drawn(tiles@, t as nat, rows as nat, cols as nat, tw as nat, th as nat, x as int, y as int)),
            decreases t,
        {
            if tile_draws_at(tiles[t - 1], rows, cols, tw, th, x, y) {
                on = true;
            }
            t = t - 1;
        }
        let ghost before = black@;
        black.push(on);
        proof {
            assert(black@ == before.push(on));
            if on {
                assert(black@[i as int] == true);
            }
            if black@.contains(true) && !before.contains(true) {
                let q = choose|q: int| 0 <= q < black@.len() && black@[q] == true;
                if q < i {
                    assert(before[q] == true);
                }
            }
            if before.contains(true) {
                let q = choose|q: int| 0 <= q < before.len() && before[q] == true;
                assert(black@[q] == true);
            }
        }
        if on {
            any = true;
        }
        i = i + 1;
    }
    proof {
        assert(black@ =~= grid_image(tiles@, rows as nat, cols as nat, tw as nat, th as nat));
    }
    if any {
        Ok(Some(TestImage { width: out_w as u32, height: out_h as u32, black }))
    } else {
        Ok(None)
    }
}

proof fn lemma_no_problem_from(tiles: Seq<&InteractiveGlyph>, i: nat, j: nat, rows: nat, cols: nat, tw: nat, th: nat)
    requires
        i <= j < tiles.len(),
        first_tile_problem(tiles, i, rows, cols, tw, th) == first_tile_problem(tiles, tiles.len(), rows, cols, tw, th),
    ensures
        tile_problem(*tiles[j as int], rows, cols, tw, th) is None,
    decreases j - i,
{
    if i < j {
        if tile_problem(*tiles[i as int], rows, cols, tw, th) is Some {
        } else {
            lemma_no_problem_from(tiles, i + 1, j, rows, cols, tw, th);
        }
    }
}

} // verus!
