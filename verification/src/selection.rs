//! What the selected row of the glyph list stands for: its source, the
//! sources whose threshold and invert it sets, and the values it shows.
use vstd::prelude::*;
use crate::animation::{animation_threshold_parent_sources, frame_parents};
use crate::codepoints::views;
use crate::installed_meta::{override_of, override_value};
use crate::keys::{animation_frame_parent_source, frame_parent};
use crate::model::{AnimationDef, InteractiveGlyph, RuntimeConfig, VisibleGlyphRow};
use crate::natural::strictly_sorted;
use crate::text::str_equal;

verus! {

/// The first glyph whose parent source is `key`.
pub open spec fn glyph_for(glyphs: Seq<InteractiveGlyph>, key: Seq<char>) -> Option<InteractiveGlyph>
    decreases glyphs.len(),
{
    if glyphs.len() == 0 {
        None
    } else if glyphs[0].glyph.source_parent_key@ == key {
        Some(glyphs[0])
    } else {
        glyph_for(glyphs.skip(1), key)
    }
}

fn find_glyph(glyphs: &Vec<InteractiveGlyph>, key: &str) -> (r: Option<usize>)
    ensures
        r matches Some(i) ==> i < glyphs@.len() && glyph_for(glyphs@, key@) == Some(glyphs@[i as int]),
        r is None ==> glyph_for(glyphs@, key@) is None,
{
    let mut i: usize = 0;
    proof {
        assert(glyphs@.skip(0) =~= glyphs@);
    }
    while i < glyphs.len()
        invariant
            i <= glyphs@.len(),
            glyph_for(glyphs@, key@) == glyph_for(glyphs@.skip(i as int), key@),
        decreases glyphs@.len() - i,
    {
        if str_equal(glyphs[i].glyph.source_parent_key.as_str(), key) {
            proof {
                assert(glyphs@.skip(i as int)[0] == glyphs@[i as int]);
            }
            return Some(i);
        }
        proof {
            assert(glyphs@.skip(i as int).skip(1) =~= glyphs@.skip(i + 1));
        }
        i = i + 1;
    }
    None
}

/// The source of the selected row: the frame of an animation frame row,
/// the parent source of a glyph row, the source of a grid row; none for an
/// animation row.
pub open spec fn selected_parent(row: Option<VisibleGlyphRow>, glyphs: Seq<InteractiveGlyph>) -> Option<Seq<char>> {
    match row {
        None => None,
        Some(VisibleGlyphRow::AnimationFrame { source_key, .. }) => Some(source_key@),
        Some(VisibleGlyphRow::AnimationParent { .. }) => None,
        Some(VisibleGlyphRow::Single { glyph_idx }) => if glyph_idx < glyphs.len() {
            Some(glyphs[glyph_idx as int].glyph.source_parent_key@)
        } else {
            None
        },
        Some(VisibleGlyphRow::CompositionParent { source_key, .. }) => Some(source_key@),
        Some(VisibleGlyphRow::CompositionChild { source_key, .. }) => Some(source_key@),
    }
}

pub fn selected_source_parent_key(row: Option<&VisibleGlyphRow>, glyphs: &Vec<InteractiveGlyph>) -> (r: Option<String>)
    ensures
        (match r {
            Some(s) => Some(s@),
            None => None,
        }) == selected_parent(
            match row {
                Some(v) => Some(*v),
                None => None,
            },
            glyphs@,
        ),
{
    match row {
        None => None,
        Some(VisibleGlyphRow::AnimationFrame { source_key, .. }) => Some(source_key.clone()),
        Some(VisibleGlyphRow::AnimationParent { .. }) => None,
        Some(VisibleGlyphRow::Single { glyph_idx }) => if *glyph_idx < glyphs.len() {
            Some(glyphs[*glyph_idx].glyph.source_parent_key.clone())
        } else {
            None
        },
        Some(VisibleGlyphRow::CompositionParent { source_key, .. }) => Some(source_key.clone()),
        Some(VisibleGlyphRow::CompositionChild { source_key, .. }) => Some(source_key.clone()),
    }
}

/// The animation of an animation or animation frame row.
pub fn selected_animation_index(row: Option<&VisibleGlyphRow>) -> (r: Option<usize>)
    ensures
        r == match row {
            Some(VisibleGlyphRow::AnimationParent { animation_idx }) => Some(*animation_idx),
            Some(VisibleGlyphRow::AnimationFrame { animation_idx, .. }) => Some(*animation_idx),
            _ => None,
        },
{
    match row {
        Some(VisibleGlyphRow::AnimationParent { animation_idx }) => Some(*animation_idx),
        Some(VisibleGlyphRow::AnimationFrame { animation_idx, .. }) => Some(*animation_idx),
        _ => None,
    }
}

/// The glyph of a row that shows one glyph.
pub fn selected_visible_glyph_index(row: Option<&VisibleGlyphRow>) -> (r: Option<usize>)
    ensures
        r == match row {
            Some(VisibleGlyphRow::AnimationFrame { glyph_idx, .. }) => *glyph_idx,
            Some(VisibleGlyphRow::Single { glyph_idx }) => Some(*glyph_idx),
            Some(VisibleGlyphRow::CompositionChild { glyph_idx, .. }) => Some(*glyph_idx),
            _ => None,
        },
{
    match row {
        Some(VisibleGlyphRow::AnimationFrame { glyph_idx, .. }) => *glyph_idx,
        Some(VisibleGlyphRow::Single { glyph_idx }) => Some(*glyph_idx),
        Some(VisibleGlyphRow::CompositionChild { glyph_idx, .. }) => Some(*glyph_idx),
        _ => None,
    }
}

/// The sources whose threshold (and invert) the selected row sets: every
/// frame parent of an animation (distinct, in `String` order), the parent
/// of an animation frame, the source of any other row; none for a grid
/// tile or when nothing is selected.
pub fn selected_threshold_sources(row: Option<&VisibleGlyphRow>, glyphs: &Vec<InteractiveGlyph>, animations: &Vec<AnimationDef>) -> (r: Option<Vec<String>>)
    ensures
        (match row {
            None => r is None,
            Some(VisibleGlyphRow::AnimationParent { animation_idx }) => if *animation_idx < animations@.len() {
                r matches Some(v) && strictly_sorted(v@) && forall|x: Seq<char>| #[trigger] views(v@).contains(x)
                    <==> frame_parents(animations@[*animation_idx as int]).contains(x)
            } else {
                r is None
            },
            Some(VisibleGlyphRow::AnimationFrame { source_key, .. }) => r matches Some(v) && views(v@) == seq![frame_parent(source_key@)],
            Some(VisibleGlyphRow::CompositionChild { .. }) => r is None,
            Some(other) => match selected_parent(Some(*other), glyphs@) {
                Some(p) => r matches Some(v) && views(v@) == seq![p],
                None => r is None,
            },
        }),
{
    match row {
        None => None,
        Some(VisibleGlyphRow::AnimationParent { animation_idx }) => if *animation_idx < animations.len() {
            Some(animation_threshold_parent_sources(&animations[*animation_idx]))
        } else {
            None
        },
        Some(VisibleGlyphRow::AnimationFrame { source_key, .. }) => {
            let v = vec![animation_frame_parent_source(source_key.as_str())];
            proof {
                assert(views(v@) =~= seq![frame_parent(source_key@)]);
            }
            Some(v)
        },
        Some(VisibleGlyphRow::CompositionChild { .. }) => None,
        Some(other) => match selected_source_parent_key(Some(other), glyphs) {
            Some(p) => {
                let v = vec![p];
                proof {
                    assert(views(v@) =~= seq![v@[0]@]);
                }
                Some(v)
            },
            None => None,
        },
    }
}

/// The threshold the selected row shows: that of the first glyph of its
/// first source, or the project's threshold when that source has no glyph.
pub fn selected_row_threshold_value(sources: Option<&Vec<String>>, glyphs: &Vec<InteractiveGlyph>, base_threshold: u8) -> (r: Option<u8>)
    ensures
        r == match sources {
            None => None,
            Some(v) => if v@.len() == 0 {
                None
            } else {
                match glyph_for(glyphs@, v@[0]@) {
                    Some(g) => Some(g.working_threshold),
                    None => Some(base_threshold),
                }
            },
        },
{
    let v = match sources {
        Some(v) => v,
        None => return None,
    };
    if v.len() == 0 {
        return None;
    }
    match find_glyph(glyphs, v[0].as_str()) {
        Some(i) => Some(glyphs[i].working_threshold),
        None => Some(base_threshold),
    }
}

/// The invert flag the selected row shows: that of the first glyph of its
/// first source, off when that source has no glyph.
pub fn selected_row_invert_value(sources: Option<&Vec<String>>, glyphs: &Vec<InteractiveGlyph>) -> (r: Option<bool>)
    ensures
        r == match sources {
            None => None,
            Some(v) => if v@.len() == 0 {
                None
            } else {
                match glyph_for(glyphs@, v@[0]@) {
                    Some(g) => Some(g.working_invert),
                    None => Some(false),
                }
            },
        },
{
    let v = match sources {
        Some(v) => v,
        None => return None,
    };
    if v.len() == 0 {
        return None;
    }
    match find_glyph(glyphs, v[0].as_str()) {
        Some(i) => Some(glyphs[i].working_invert),
        None => Some(false),
    }
}

/// The frame rate of the selected animation.
pub fn selected_row_fps_value(animation_index: Option<usize>, animations: &Vec<AnimationDef>) -> (r: Option<u8>)
    ensures
        r == match animation_index {
            Some(i) => if i < animations@.len() {
                Some(animations@[i as int].fps)
            } else {
                None
            },
            None => None,
        },
{
    match animation_index {
        Some(i) => if i < animations.len() {
            Some(animations[i].fps)
        } else {
            None
        },
        None => None,
    }
}

/// A threshold moved by `step`, saturating at 0 and 255.
pub open spec fn stepped_threshold(t: u8, step: i16) -> u8 {
    let v = t + step;
    if v < 0 {
        0
    } else if v > 255 {
        255
    } else {
        v as u8
    }
}

pub fn adjusted_threshold(threshold: u8, step: i16) -> (r: u8)
    ensures
        r == stepped_threshold(threshold, step),
{
    let v = threshold as i32 + step as i32;
    if v < 0 {
        0
    } else if v > 255 {
        255
    } else {
        v as u8
    }
}

/// The threshold an animation frame source works at: its first glyph's,
/// else its saved override, else the project's.
pub open spec fn source_threshold_now(glyphs: Seq<InteractiveGlyph>, config: RuntimeConfig, key: Seq<char>) -> u8 {
    match glyph_for(glyphs, key) {
        Some(g) => g.working_threshold,
        None => match override_of(config.threshold_overrides@, key) {
            Some(t) => t,
            None => config.base_threshold,
        },
    }
}

/// The threshold shared by every frame source of `animation`, if they all
/// work at the same one (none for an animation without frames).
pub fn animation_uniform_frame_threshold(glyphs: &Vec<InteractiveGlyph>, config: &RuntimeConfig, animation: &AnimationDef) -> (r: Option<u8>)
    ensures
        r matches Some(t) ==> frame_parents(*animation).len() > 0 && forall|x: Seq<char>| #[trigger] frame_parents(*animation).contains(x) ==> source_threshold_now(glyphs@, *config, x) == t,
        r is None ==> frame_parents(*animation).len() == 0 || exists|x: Seq<char>, y: Seq<char>|
            #[trigger] frame_parents(*animation).contains(x) && #[trigger] frame_parents(*animation).contains(y)
                && source_threshold_now(glyphs@, *config, x) != source_threshold_now(glyphs@, *config, y),
{
    let sources = animation_threshold_parent_sources(animation);
    if sources.len() == 0 {
        proof {
            if frame_parents(*animation).len() > 0 {
                assert(frame_parents(*animation).contains(frame_parents(*animation)[0]));
                assert(views(sources@).contains(frame_parents(*animation)[0]));
            }
        }
        return None;
    }
    let mut values: Vec<u8> = Vec::new();
    let mut i: usize = 0;
    while i < sources.len()
        invariant
            i <= sources@.len(),
            values@.len() == i,
            forall|x: Seq<char>| #[trigger] views(sources@).contains(x) <==> frame_parents(*animation).contains(x),
            forall|j: int| 0 <= j < i ==> #[trigger] values@[j] == source_threshold_now(glyphs@, *config, sources@[j]@),
        decreases sources@.len() - i,
    {
        let v = match find_glyph(glyphs, sources[i].as_str()) {
            Some(g) => glyphs[g].working_threshold,
            None => match override_value(&config.threshold_overrides, sources[i].as_str()) {
                Some(t) => t,
                None => config.base_threshold,
            },
        };
        values.push(v);
        i = i + 1;
    }
    let first = values[0];
    let mut k: usize = 1;
    while k < values.len()
        invariant
            1 <= k <= values@.len(),
            values@.len() == sources@.len(),
            forall|x: Seq<char>| #[trigger] views(sources@).contains(x) <==> frame_parents(*animation).contains(x),
            forall|j: int| 0 <= j < values@.len() ==> #[trigger] values@[j] == source_threshold_now(glyphs@, *config, sources@[j]@),
            first == values@[0],
            forall|j: int| 0 <= j < k ==> values@[j] == first,
        decreases values@.len() - k,
    {
        if values[k] != first {
            proof {
                let x = sources@[0]@;
                let y = sources@[k as int]@;
                assert(views(sources@)[0] == x);
                assert(views(sources@)[k as int] == y);
                assert(views(sources@).contains(x));
                assert(views(sources@).contains(y));
                assert(values@[0] == source_threshold_now(glyphs@, *config, x));
                assert(values@[k as int] == source_threshold_now(glyphs@, *config, y));
                assert(frame_parents(*animation).contains(x));
                assert(frame_parents(*animation).contains(y));
            }
            return None;
        }
        k = k + 1;
    }
    proof {
        assert(views(sources@)[0] == sources@[0]@);
        assert(views(sources@).contains(sources@[0]@));
        assert(frame_parents(*animation).contains(sources@[0]@));
        assert forall|x: Seq<char>| #[trigger] frame_parents(*animation).contains(x) implies source_threshold_now(glyphs@, *config, x) == first by {
            assert(views(sources@).contains(x));
            let j = choose|j: int| 0 <= j < views(sources@).len() && views(sources@)[j] == x;
            assert(values@[j] == first);
        }
    }
    Some(first)
}

/// The frame sources of `animation` that have a glyph.
pub open spec fn loaded_frame_source(glyphs: Seq<InteractiveGlyph>, animation: AnimationDef, x: Seq<char>) -> bool {
    frame_parents(animation).contains(x) && glyph_for(glyphs, x) is Some
}

/// Whether the loaded frame sources of `animation` work at different
/// thresholds.
pub fn animation_has_non_uniform_frame_thresholds(glyphs: &Vec<InteractiveGlyph>, animation: &AnimationDef) -> (r: bool)
    ensures
        r == exists|x: Seq<char>, y: Seq<char>|
            #[trigger] loaded_frame_source(glyphs@, *animation, x) && #[trigger] loaded_frame_source(glyphs@, *animation, y)
                && glyph_for(glyphs@, x)->0.working_threshold != glyph_for(glyphs@, y)->0.working_threshold,
{
    let sources = animation_threshold_parent_sources(animation);
    let mut first: Option<u8> = None;
    let ghost mut first_key: Seq<char> = Seq::empty();
    let mut i: usize = 0;
    while i < sources.len()
        invariant
            i <= sources@.len(),
            forall|x: Seq<char>| #[trigger] views(sources@).contains(x) <==> frame_parents(*animation).contains(x),
            first is None ==> forall|j: int| 0 <= j < i ==> glyph_for(glyphs@, #[trigger] sources@[j]@) is None,
            first matches Some(t) ==> loaded_frame_source(glyphs@, *animation, first_key) && glyph_for(glyphs@, first_key)->0.working_threshold == t
                && forall|j: int| 0 <= j < i && glyph_for(glyphs@, #[trigger] sources@[j]@) is Some ==> glyph_for(glyphs@, sources@[j]@)->0.working_threshold == t,
        decreases sources@.len() - i,
    {
        proof {
            assert(views(sources@)[i as int] == sources@[i as int]@);
            assert(views(sources@).contains(sources@[i as int]@));
            assert(frame_parents(*animation).contains(sources@[i as int]@));
        }
        match find_glyph(glyphs, sources[i].as_str()) {
            Some(g) => {
                let t = glyphs[g].working_threshold;
                match first {
                    None => {
                        first = Some(t);
                        proof {
                            first_key = sources@[i as int]@;
                        }
                    },
                    Some(f) => {
                        if f != t {
                            proof {
                                assert(loaded_frame_source(glyphs@, *animation, sources@[i as int]@));
                            }
                            return true;
                        }
                    },
                }
            },
            None => {},
        }
        i = i + 1;
    }
    proof {
        assert forall|x: Seq<char>, y: Seq<char>|
            #[trigger] loaded_frame_source(glyphs@, *animation, x) && #[trigger] loaded_frame_source(glyphs@, *animation, y)
                implies glyph_for(glyphs@, x)->0.working_threshold == glyph_for(glyphs@, y)->0.working_threshold by {
            assert(views(sources@).contains(x));
            assert(views(sources@).contains(y));
            let a = choose|a: int| 0 <= a < views(sources@).len() && views(sources@)[a] == x;
            let b = choose|b: int| 0 <= b < views(sources@).len() && views(sources@)[b] == y;
            assert(sources@[a]@ == x && sources@[b]@ == y);
        }
    }
    false
}

/// Whether the loaded frame sources of `animation` differ in invert.
pub fn animation_has_non_uniform_frame_invert(glyphs: &Vec<InteractiveGlyph>, animation: &AnimationDef) -> (r: bool)
    ensures
        r == exists|x: Seq<char>, y: Seq<char>|
            #[trigger] loaded_frame_source(glyphs@, *animation, x) && #[trigger] loaded_frame_source(glyphs@, *animation, y)
                && glyph_for(glyphs@, x)->0.working_invert != glyph_for(glyphs@, y)->0.working_invert,
{
    let sources = animation_threshold_parent_sources(animation);
    let mut first: Option<bool> = None;
    let ghost mut first_key: Seq<char> = Seq::empty();
    let mut i: usize = 0;
    while i < sources.len()
        invariant
            i <= sources@.len(),
            forall|x: Seq<char>| #[trigger] views(sources@).contains(x) <==> frame_parents(*animation).contains(x),
            first is None ==> forall|j: int| 0 <= j < i ==> glyph_for(glyphs@, #[trigger] sources@[j]@) is None,
            first matches Some(t) ==> loaded_frame_source(glyphs@, *animation, first_key) && glyph_for(glyphs@, first_key)->0.working_invert == t
                && forall|j: int| 0 <= j < i && glyph_for(glyphs@, #[trigger] sources@[j]@) is Some ==> glyph_for(glyphs@, sources@[j]@)->0.working_invert == t,
        decreases sources@.len() - i,
    {
        proof {
            assert(views(sources@)[i as int] == sources@[i as int]@);
            assert(views(sources@).contains(sources@[i as int]@));
            assert(frame_parents(*animation).contains(sources@[i as int]@));
        }
        match find_glyph(glyphs, sources[i].as_str()) {
            Some(g) => {
                let t = glyphs[g].working_invert;
                match first {
                    None => {
                        first = Some(t);
                        proof {
                            first_key = sources@[i as int]@;
                        }
                    },
                    Some(f) => {
                        if f != t {
                            proof {
                                assert(loaded_frame_source(glyphs@, *animation, sources@[i as int]@));
                            }
                            return true;
                        }
                    },
                }
            },
            None => {},
        }
        i = i + 1;
    }
    proof {
        assert forall|x: Seq<char>, y: Seq<char>|
            #[trigger] loaded_frame_source(glyphs@, *animation, x) && #[trigger] loaded_frame_source(glyphs@, *animation, y)
                implies glyph_for(glyphs@, x)->0.working_invert == glyph_for(glyphs@, y)->0.working_invert by {
            assert(views(sources@).contains(x));
            assert(views(sources@).contains(y));
            let a = choose|a: int| 0 <= a < views(sources@).len() && views(sources@)[a] == x;
            let b = choose|b: int| 0 <= b < views(sources@).len() && views(sources@)[b] == y;
            assert(sources@[a]@ == x && sources@[b]@ == y);
        }
    }
    false
}


/// Whether every frame source of `animation` works at the same threshold
/// (and it has frames).
pub open spec fn frames_share_threshold(glyphs: Seq<InteractiveGlyph>, config: RuntimeConfig, animation: AnimationDef) -> bool {
    let p = frame_parents(animation);
    p.len() > 0 && forall|x: Seq<char>, y: Seq<char>|
        #[trigger] p.contains(x) && #[trigger] p.contains(y) ==> source_threshold_now(glyphs, config, x) == source_threshold_now(glyphs, config, y)
}

/// The threshold column of an animation in the glyph list: the threshold
/// its frames share, or `var. threshold`.
pub fn animation_threshold_summary_label(glyphs: &Vec<InteractiveGlyph>, config: &RuntimeConfig, animation: &AnimationDef) -> (r: String)
    ensures
        r@ == if frames_share_threshold(glyphs@, *config, *animation) {
            crate::text::decimal(source_threshold_now(glyphs@, *config, frame_parents(*animation)[0]) as nat)
        } else {
            "var. threshold"@
        },
{
    let uniform = animation_uniform_frame_threshold(glyphs, config, animation);
    proof {
        let p = frame_parents(*animation);
        if p.len() > 0 {
            assert(p.contains(p[0]));
        }
    }
    match uniform {
        Some(t) => crate::text::decimal_string(t as u64),
        None => "var. threshold".to_owned(),
    }
}

} // verus!
