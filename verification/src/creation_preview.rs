//! What the preview of the creation popup shows: which source, under which
//! title, and which glyphs of the project stand for it.
use vstd::prelude::*;
use crate::codepoints::views;
use crate::keys::{display_name, source_display_name};
use crate::model::{HomeCreationKind, InteractiveGlyph};
use crate::text::{push_str, str_equal, string_of, chars_of, push_all};

verus! {

/// The source the creation popup previews: for a glyph, the source being
/// tweaked or else the last one imported; for a grid, its source; for an
/// animation, the picked frame at the preview's frame index (wrapping).
pub open spec fn preview_source(
    kind: HomeCreationKind,
    tweak_source: Option<Seq<char>>,
    recent_imports: Seq<Seq<char>>,
    grid_source: Option<Seq<char>>,
    picked: Seq<Seq<char>>,
    frame_index: nat,
) -> Option<Seq<char>> {
    match kind {
        HomeCreationKind::Glyph => match tweak_source {
            Some(s) => Some(s),
            None => if recent_imports.len() == 0 {
                None
            } else {
                Some(recent_imports.last())
            },
        },
        HomeCreationKind::Grid => grid_source,
        _ => if picked.len() == 0 {
            None
        } else {
            Some(picked[(frame_index % picked.len()) as int])
        },
    }
}

pub open spec fn opt_view(s: Option<&str>) -> Option<Seq<char>> {
    match s {
        Some(t) => Some(t@),
        None => None,
    }
}

pub open spec fn opt_string_view(s: Option<String>) -> Option<Seq<char>> {
    match s {
        Some(t) => Some(t@),
        None => None,
    }
}

/// Picks the source the creation popup previews.
pub fn creation_preview_source(
    kind: HomeCreationKind,
    tweak_source: Option<&str>,
    recent_imports: &Vec<String>,
    grid_source: Option<&str>,
    picked: &Vec<String>,
    frame_index: usize,
) -> (r: Option<String>)
    ensures
        opt_string_view(r) == preview_source(
            kind,
            opt_view(tweak_source),
            views(recent_imports@),
            opt_view(grid_source),
            views(picked@),
            frame_index as nat,
        ),
{
    match kind {
        HomeCreationKind::Glyph => match tweak_source {
            Some(s) => Some(s.to_owned()),
            None => {
                if recent_imports.len() == 0 {
                    None
                } else {
                    let last = recent_imports[recent_imports.len() - 1].clone();
                    proof {
                        assert(views(recent_imports@).last() == recent_imports@[recent_imports@.len() - 1]@);
                    }
                    Some(last)
                }
            },
        },
        HomeCreationKind::Grid => match grid_source {
            Some(s) => Some(s.to_owned()),
            None => None,
        },
        _ => {
            if picked.len() == 0 {
                None
            } else {
                let i = frame_index % picked.len();
                let s = picked[i].clone();
                proof {
                    assert(views(picked@)[i as int] == picked@[i as int]@);
                }
                Some(s)
            }
        },
    }
}

/// The title of the creation popup's preview: `Source: ` and the file
/// name of the source.
pub fn creation_preview_title(source_key: &str) -> (r: String)
    ensures
        r@ == "Source: "@ + display_name(source_key@),
{
    let name = source_display_name(source_key);
    let mut out: Vec<char> = Vec::new();
    push_str(&mut out, "Source: ");
    let tail = chars_of(name.as_str());
    push_all(&mut out, &tail);
    string_of(&out)
}

pub open spec fn of_source(g: InteractiveGlyph, src: Seq<char>) -> bool {
    g.glyph.source_parent_key@ == src
}

pub open spec fn is_tile_of(g: InteractiveGlyph, src: Seq<char>) -> bool {
    of_source(g, src) && g.glyph.composition_tile is Some
}

pub open spec fn is_whole_of(g: InteractiveGlyph, src: Seq<char>) -> bool {
    of_source(g, src) && g.glyph.composition_tile is None
}

/// The first glyph from `i` on for which `p` holds.
pub open spec fn first_from(gs: Seq<InteractiveGlyph>, src: Seq<char>, whole: bool, i: int) -> Option<int>
    decreases gs.len() - i,
{
    if i < 0 || i >= gs.len() {
        None
    } else if (if whole { is_whole_of(gs[i], src) } else { of_source(gs[i], src) }) {
        Some(i)
    } else {
        first_from(gs, src, whole, i + 1)
    }
}

/// The glyph the preview shows for a source that is neither a grid with
/// tiles nor freshly imported: its first whole glyph, else its first glyph.
pub open spec fn preview_glyph(gs: Seq<InteractiveGlyph>, src: Seq<char>) -> Option<int> {
    match first_from(gs, src, true, 0) {
        Some(i) => Some(i),
        None => first_from(gs, src, false, 0),
    }
}

fn first_index(glyphs: &Vec<InteractiveGlyph>, source_key: &str, whole: bool) -> (r: Option<usize>)
    ensures
        match r {
            Some(i) => first_from(glyphs@, source_key@, whole, 0) == Some(i as int),
            None => first_from(glyphs@, source_key@, whole, 0) is None,
        },
{
    let mut i: usize = 0;
    while i < glyphs.len()
        invariant
            i <= glyphs@.len(),
            first_from(glyphs@, source_key@, whole, 0) == first_from(glyphs@, source_key@, whole, i as int),
        decreases glyphs@.len() - i,
    {
        let g = &glyphs[i];
        let same = str_equal(g.glyph.source_parent_key.as_str(), source_key);
        let hit = same && (!whole || g.glyph.composition_tile.is_none());
        if hit {
            return Some(i);
        }
        i = i + 1;
    }
    None
}

/// Picks the glyph the creation popup previews for `source_key`.
pub fn preview_glyph_index(glyphs: &Vec<InteractiveGlyph>, source_key: &str) -> (r: Option<usize>)
    ensures
        match r {
            Some(i) => preview_glyph(glyphs@, source_key@) == Some(i as int),
            None => preview_glyph(glyphs@, source_key@) is None,
        },
{
    match first_index(glyphs, source_key, true) {
        Some(i) => Some(i),
        None => first_index(glyphs, source_key, false),
    }
}

/// The indices, in order, of the grid tiles of `src` among the first `n`
/// glyphs.
pub open spec fn tile_indices(gs: Seq<InteractiveGlyph>, src: Seq<char>, n: nat) -> Seq<usize>
    decreases n,
{
    if n == 0 {
        Seq::empty()
    } else {
        let before = tile_indices(gs, src, (n - 1) as nat);
        if is_tile_of(gs[n - 1], src) {
            before.push((n - 1) as usize)
        } else {
            before
        }
    }
}

/// The grid tiles of `source_key`, as indices into `glyphs`, in order.
pub fn composition_tile_indices(glyphs: &Vec<InteractiveGlyph>, source_key: &str) -> (r: Vec<usize>)
    ensures
        r@ == tile_indices(glyphs@, source_key@, glyphs@.len()),
{
    let mut out: Vec<usize> = Vec::new();
    let mut i: usize = 0;
    while i < glyphs.len()
        invariant
            i <= glyphs@.len(),
            out@ == tile_indices(glyphs@, source_key@, i as nat),
        decreases glyphs@.len() - i,
    {
        let g = &glyphs[i];
        if str_equal(g.glyph.source_parent_key.as_str(), source_key) && g.glyph.composition_tile.is_some() {
            out.push(i);
        }
        i = i + 1;
    }
    out
}

} // verus!
