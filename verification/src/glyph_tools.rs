//! The animation tool of the Glyphs view before its settings open:
//! waiting for imported frames, choosing standard or grid, and picking the
//! frames (in the order they are picked).
use vstd::prelude::*;
use crate::codepoints::views;
use crate::controls::{Key, KeyPress};
use crate::home_panel::{is_left, is_right};
use crate::model::AnimationType;
use crate::text::str_equal;

verus! {

/// The animation type button that has the focus.
#[derive(Debug, Clone, Copy, PartialEq, Eq, Structural)]
pub enum AnimationTypeChoiceFocus {
    Standard,
    Grid,
}

/// The step the animation tool is at.
#[derive(Debug, Clone, Copy, PartialEq, Eq, Structural)]
pub enum AnimationToolStep {
    /// Not in use.
    Off,
    ImportFrames,
    ChooseType(AnimationTypeChoiceFocus),
    SelectFrames(AnimationType),
}

/// What the caller does after a key: drop the animation draft, show a
/// status line, open the animation settings for the picked frames, and set
/// whether the glyph list picks frames.
#[derive(Debug, Clone)]
pub struct AnimationToolOutcome {
    pub clear_draft: bool,
    pub status: Option<String>,
    pub configure: Option<AnimationType>,
    pub picking_frames: Option<bool>,
}

pub open spec fn outcome_view(o: AnimationToolOutcome) -> (bool, Option<Seq<char>>, Option<AnimationType>, Option<bool>) {
    (
        o.clear_draft,
        match o.status {
            Some(s) => Some(s@),
            None => None,
        },
        o.configure,
        o.picking_frames,
    )
}

pub open spec fn no_repeats(s: Seq<Seq<char>>) -> bool {
    forall|i: int, j: int| 0 <= i < s.len() && 0 <= j < s.len() && i != j ==> s[i] != s[j]
}

/// `s` without `x`.
pub open spec fn without(s: Seq<Seq<char>>, x: Seq<char>) -> Seq<Seq<char>>
    decreases s.len(),
{
    if s.len() == 0 {
        s
    } else if s.last() == x {
        without(s.drop_last(), x)
    } else {
        without(s.drop_last(), x).push(s.last())
    }
}

pub open spec fn quits(k: Key) -> bool {
    k == Key::Esc || k == Key::Char('q')
}

/// A key on the animation tool, with `importing` telling whether frames
/// are still being imported, `selected` the source of the selected glyph
/// and `imported` the sources imported for this animation.  The picked
/// frames change only on Space while picking: the selected source is
/// taken out when it was picked, added at the end otherwise.
pub open spec fn tool_step(
    step: AnimationToolStep,
    picked: Seq<Seq<char>>,
    importing: bool,
    selected: Option<Seq<char>>,
    imported: Seq<Seq<char>>,
    k: Key,
) -> (AnimationToolStep, Seq<Seq<char>>, (bool, Option<Seq<char>>, Option<AnimationType>, Option<bool>)) {
    match step {
        AnimationToolStep::Off => (step, picked, (false, None, None, None)),
        AnimationToolStep::ImportFrames => if quits(k) || k == Key::Enter {
            if importing {
                (step, picked, (false, Some("animation frames are still loading"@), None, None))
            } else if quits(k) {
                (AnimationToolStep::Off, picked, (true, Some("animation import canceled"@), None, None))
            } else {
                (
                    AnimationToolStep::ChooseType(AnimationTypeChoiceFocus::Standard),
                    picked,
                    (false, Some("Choose animation type"@), None, None),
                )
            }
        } else {
            (step, picked, (false, None, None, None))
        },
        AnimationToolStep::ChooseType(focus) => if quits(k) {
            (AnimationToolStep::Off, picked, (true, Some("animation creation canceled"@), None, None))
        } else if is_left(k) {
            (AnimationToolStep::ChooseType(AnimationTypeChoiceFocus::Standard), picked, (false, None, None, None))
        } else if is_right(k) {
            (AnimationToolStep::ChooseType(AnimationTypeChoiceFocus::Grid), picked, (false, None, None, None))
        } else if k == Key::Enter {
            (
                AnimationToolStep::SelectFrames(
                    if focus == AnimationTypeChoiceFocus::Standard {
                        AnimationType::Standard
                    } else {
                        AnimationType::Grid
                    },
                ),
                picked,
                (false, Some("Select imported frame glyphs with Space, then Enter to configure"@), None, Some(true)),
            )
        } else {
            (step, picked, (false, None, None, None))
        },
        AnimationToolStep::SelectFrames(t) => if quits(k) {
            (AnimationToolStep::Off, picked, (true, Some("animation frame selection canceled"@), None, None))
        } else if k == Key::Char(' ') {
            match selected {
                None => (step, picked, (false, None, None, None)),
                Some(x) => if !imported.contains(x) {
                    (step, picked, (false, Some("only media imported in this animation flow can be used as frames"@), None, None))
                } else if picked.contains(x) {
                    (step, without(picked, x), (false, None, None, None))
                } else {
                    (step, picked.push(x), (false, None, None, None))
                },
            }
        } else if k == Key::Enter {
            if picked.len() == 0 {
                (step, picked, (false, Some("select at least one frame"@), None, None))
            } else {
                (step, picked, (false, None, Some(t), Some(false)))
            }
        } else {
            (step, picked, (false, None, None, None))
        },
    }
}

pub(crate) fn contains_text(v: &Vec<String>, x: &str) -> (r: Option<usize>)
    ensures
        r matches Some(i) ==> i < v@.len() && v@[i as int]@ == x@,
        r is None ==> !views(v@).contains(x@),
{
    let mut i: usize = 0;
    while i < v.len()
        invariant
            i <= v@.len(),
            forall|j: int| 0 <= j < i ==> v@[j]@ != x@,
        decreases v@.len() - i,
    {
        if str_equal(v[i].as_str(), x) {
            return Some(i);
        }
        i = i + 1;
    }
    proof {
        if views(v@).contains(x@) {
            let w = views(v@);
            let j = choose|j: int| 0 <= j < w.len() && #[trigger] w[j] == x@;
            assert(v@[j]@ == x@);
        }
    }
    None
}

fn outcome(clear_draft: bool, status: Option<String>, configure: Option<AnimationType>, picking_frames: Option<bool>) -> (r: AnimationToolOutcome)
    ensures
        r.clear_draft == clear_draft,
        r.status == status,
        r.configure == configure,
        r.picking_frames == picking_frames,
{
    AnimationToolOutcome { clear_draft, status, configure, picking_frames }
}

proof fn lemma_without_absent(p: Seq<Seq<char>>, x: Seq<char>)
    requires
        forall|j: int| 0 <= j < p.len() ==> p[j] != x,
    ensures
        without(p, x) == p,
    decreases p.len(),
{
    if p.len() > 0 {
        let q = p.drop_last();
        lemma_without_absent(q, x);
        assert(p.last() != x);
        assert(p =~= q.push(p.last()));
    }
}

/// Takes `x` out of a sequence in which it occurs once.
proof fn lemma_without_once(s: Seq<Seq<char>>, x: Seq<char>, i: int)
    requires
        no_repeats(s),
        0 <= i < s.len(),
        s[i] == x,
    ensures
        without(s, x) == s.remove(i),
        no_repeats(s.remove(i)),
    decreases s.len(),
{
    let r = s.remove(i);
    assert forall|a: int, b: int| 0 <= a < r.len() && 0 <= b < r.len() && a != b implies r[a] != r[b] by {
        let a2 = if a < i { a } else { a + 1 };
        let b2 = if b < i { b } else { b + 1 };
        assert(r[a] == s[a2] && r[b] == s[b2]);
    }
    let p = s.drop_last();
    if i == s.len() - 1 {
        assert forall|j: int| 0 <= j < p.len() implies p[j] != x by {
            assert(s[j] != s[i]);
        }
        lemma_without_absent(p, x);
        assert(r =~= p);
    } else {
        assert(no_repeats(p)) by {
            assert forall|a: int, b: int| 0 <= a < p.len() && 0 <= b < p.len() && a != b implies p[a] != p[b] by {
                assert(s[a] != s[b]);
            }
        }
        lemma_without_once(p, x, i);
        assert(s.last() != x) by {
            assert(s[s.len() - 1] != s[i]);
        }
        assert(r =~= p.remove(i).push(s.last()));
    }
}

/// Applies a key to the animation tool of the Glyphs view.  The picked
/// frames never hold a source twice.
pub fn handle_animation_tool_key(
    step: &mut AnimationToolStep,
    picked: &mut Vec<String>,
    importing: bool,
    selected: Option<&str>,
    imported: &Vec<String>,
    key: &KeyPress,
) -> (r: AnimationToolOutcome)
    requires
        no_repeats(views(old(picked)@)),
    ensures
        no_repeats(views(final(picked)@)),
        (*final(step), views(final(picked)@), outcome_view(r)) == tool_step(
            *old(step),
            views(old(picked)@),
            importing,
            match selected {
                Some(s) => Some(s@),
                None => None,
            },
            views(imported@),
            key.code,
        ),
{
    let k = key.code;
    let quit = k == Key::Esc || k == Key::Char('q');
    let left = k == Key::Left || k == Key::Char('h');
    let right = k == Key::Right || k == Key::Char('l');
    match *step {
        AnimationToolStep::Off => outcome(false, None, None, None),
        AnimationToolStep::ImportFrames => {
            if quit || k == Key::Enter {
                if importing {
                    outcome(false, Some("animation frames are still loading".to_owned()), None, None)
                } else if quit {
                    *step = AnimationToolStep::Off;
                    outcome(true, Some("animation import canceled".to_owned()), None, None)
                } else {
                    *step = AnimationToolStep::ChooseType(AnimationTypeChoiceFocus::Standard);
                    outcome(false, Some("Choose animation type".to_owned()), None, None)
                }
            } else {
                outcome(false, None, None, None)
            }
        },
        AnimationToolStep::ChooseType(focus) => {
            if quit {
                *step = AnimationToolStep::Off;
                outcome(true, Some("animation creation canceled".to_owned()), None, None)
            } else if left {
                *step = AnimationToolStep::ChooseType(AnimationTypeChoiceFocus::Standard);
                outcome(false, None, None, None)
            } else if right {
                *step = AnimationToolStep::ChooseType(AnimationTypeChoiceFocus::Grid);
                outcome(false, None, None, None)
            } else if k == Key::Enter {
                *step = AnimationToolStep::SelectFrames(
                    match focus {
                        AnimationTypeChoiceFocus::Standard => AnimationType::Standard,
                        AnimationTypeChoiceFocus::Grid => AnimationType::Grid,
                    },
                );
                outcome(false, Some("Select imported frame glyphs with Space, then Enter to configure".to_owned()), None, Some(true))
            } else {
                outcome(false, None, None, None)
            }
        },
        AnimationToolStep::SelectFrames(t) => {
            if quit {
                *step = AnimationToolStep::Off;
                outcome(true, Some("animation frame selection canceled".to_owned()), None, None)
            } else if k == Key::Char(' ') {
                match selected {
                    None => outcome(false, None, None, None),
                    Some(x) => {
                        let found = contains_text(imported, x);
                        if found.is_none() {
                            outcome(false, Some("only media imported in this animation flow can be used as frames".to_owned()), None, None)
                        } else {
                            proof {
                                let ii = found->0;
                                assert(views(imported@)[ii as int] == x@);
                                assert(views(imported@).contains(x@));
                            }
                            let ghost before = views(picked@);
                            match contains_text(picked, x) {
                                Some(i) => {
                                    picked.remove(i);
                                    proof {
                                        lemma_without_once(before, x@, i as int);
                                        assert(views(picked@) =~= before.remove(i as int));
                                        assert(before.contains(x@)) by {
                                            assert(before[i as int] == x@);
                                        }
                                    }
                                },
                                None => {
                                    let ghost pb = picked@;
                                    let s = x.to_owned();
                                    picked.push(s);
                                    proof {
                                        assert(picked@ == pb.push(s));
                                        assert(views(picked@) =~= before.push(x@));
                                        let after = views(picked@);
                                        assert forall|a: int, b: int| 0 <= a < after.len() && 0 <= b < after.len() && a != b implies after[a] != after[b] by {
                                            if a < before.len() && b < before.len() {
                                            } else if a == before.len() {
                                                assert(!before.contains(x@));
                                                assert(before[b] != x@) by {
                                                    if before[b] == x@ {
                                                        assert(before.contains(x@));
                                                    }
                                                }
                                            } else {
                                                assert(before[a] != x@) by {
                                                    if before[a] == x@ {
                                                        assert(before.contains(x@));
                                                    }
                                                }
                                            }
                                        }
                                    }
                                },
                            }
                            outcome(false, None, None, None)
                        }
                    },
                }
            } else if k == Key::Enter {
                if picked.len() == 0 {
                    outcome(false, Some("select at least one frame".to_owned()), None, None)
                } else {
                    outcome(false, None, Some(t), Some(false))
                }
            } else {
                outcome(false, None, None, None)
            }
        },
    }
}

} // verus!
