//! The frame of the creation popup: its headline, the list of steps with
//! the current one marked, and the hint for Enter.
use vstd::prelude::*;
use crate::model::HomeCreationKind;
use crate::text::{push_str, string_of};

verus! {

/// The step the creation popup is at.
#[derive(Debug, Clone, Copy, PartialEq, Eq, Structural)]
pub enum CreationStage {
    Import,
    Tweaking,
    ConfigureGrid,
    ConfigureAnimation,
}

/// A line of the steps list: the number badge (on the accent colour when
/// `lit`), the label (white when `bright`, muted otherwise) and the marker
/// after it, if the line has one.
#[derive(Debug, Clone)]
pub struct StepLine {
    pub number: String,
    pub label: String,
    pub lit: bool,
    pub bright: bool,
    pub marker: Option<String>,
}

pub open spec fn step_view(l: StepLine) -> (Seq<char>, Seq<char>, bool, bool, Option<Seq<char>>) {
    (
        l.number@,
        l.label@,
        l.lit,
        l.bright,
        match l.marker {
            Some(m) => Some(m@),
            None => None,
        },
    )
}

pub open spec fn steps_view(v: Seq<StepLine>) -> Seq<(Seq<char>, Seq<char>, bool, bool, Option<Seq<char>>)> {
    Seq::new(v.len(), |i: int| step_view(v[i]))
}

pub open spec fn workflow_name(kind: HomeCreationKind) -> Seq<char> {
    match kind {
        HomeCreationKind::Glyph => "Create glyph"@,
        HomeCreationKind::Grid => "Create grid"@,
        HomeCreationKind::AnimatedGlyph => "Create animated glyph"@,
        HomeCreationKind::AnimatedGridGlyph => "Create animated grid glyph"@,
    }
}

pub open spec fn is_animated_kind(kind: HomeCreationKind) -> bool {
    kind == HomeCreationKind::AnimatedGlyph || kind == HomeCreationKind::AnimatedGridGlyph
}

/// The steps of the popup for `kind` at `stage`: import, tweak, configure
/// (grids and animations only) and the final step; each earlier step is
/// `< done`, the current one `< current`, and later ones unmarked.
pub open spec fn steps(kind: HomeCreationKind, stage: CreationStage) -> Seq<(Seq<char>, Seq<char>, bool, bool, Option<Seq<char>>)> {
    let importing = stage == CreationStage::Import;
    let tweaking = stage == CreationStage::Tweaking;
    let configuring = if is_animated_kind(kind) {
        stage == CreationStage::ConfigureAnimation
    } else {
        stage == CreationStage::ConfigureGrid
    };
    let first = (
        " 1 "@,
        if is_animated_kind(kind) {
            " Import frame media "@
        } else if kind == HomeCreationKind::Grid {
            " Import source image "@
        } else {
            " Import source images "@
        },
        importing,
        importing,
        Some(if importing { "< current"@ } else { "< done"@ }),
    );
    let second = (
        " 2 "@,
        " Tweak grayscale / threshold / preview "@,
        tweaking,
        tweaking || !importing,
        Some(if tweaking { "< current"@ } else if importing { Seq::empty() } else { "< done"@ }),
    );
    if kind == HomeCreationKind::Glyph {
        seq![first, second, (" 3 "@, " Continue to Glyphs panel "@, false, false, None)]
    } else {
        let third = (
            " 3 "@,
            if kind == HomeCreationKind::Grid {
                " Configure rows, columns, bleed in popup "@
            } else {
                " Configure name/FPS/grid options in popup "@
            },
            configuring,
            configuring,
            Some(if configuring { "< current"@ } else if importing || tweaking { Seq::empty() } else { "< done"@ }),
        );
        let fourth = (
            " 4 "@,
            if kind == HomeCreationKind::Grid {
                " Create grid and switch to Glyphs "@
            } else {
                " Create animation and switch to Glyphs "@
            },
            false,
            false,
            None,
        );
        seq![first, second, third, fourth]
    }
}

fn text(lit: &str) -> (r: String)
    ensures
        r@ == lit@,
{
    let mut out: Vec<char> = Vec::new();
    push_str(&mut out, lit);
    string_of(&out)
}

fn line(number: &str, label: &str, lit: bool, bright: bool, marker: Option<&str>) -> (r: StepLine)
    ensures
        step_view(r) == (
            number@,
            label@,
            lit,
            bright,
            match marker {
                Some(m) => Some(m@),
                None => None::<Seq<char>>,
            },
        ),
{
    StepLine {
        number: text(number),
        label: text(label),
        lit,
        bright,
        marker: match marker {
            Some(m) => Some(text(m)),
            None => None,
        },
    }
}

fn empty_text() -> (r: String)
    ensures
        r@ == Seq::<char>::empty(),
{
    String::new()
}

/// The steps list of the popup.
pub fn creation_steps(kind: HomeCreationKind, stage: CreationStage) -> (r: Vec<StepLine>)
    ensures
        steps_view(r@) == steps(kind, stage),
{
    let importing = stage == CreationStage::Import;
    let tweaking = stage == CreationStage::Tweaking;
    let animated = match kind {
        HomeCreationKind::AnimatedGlyph | HomeCreationKind::AnimatedGridGlyph => true,
        _ => false,
    };
    let configuring = if animated {
        stage == CreationStage::ConfigureAnimation
    } else {
        stage == CreationStage::ConfigureGrid
    };
    let first_label = if animated {
        " Import frame media "
    } else if kind == HomeCreationKind::Grid {
        " Import source image "
    } else {
        " Import source images "
    };
    let mut out: Vec<StepLine> = Vec::new();
    out.push(line(" 1 ", first_label, importing, importing, Some(if importing { "< current" } else { "< done" })));
    let second_marker = if tweaking {
        Some(text("< current"))
    } else if importing {
        Some(empty_text())
    } else {
        Some(text("< done"))
    };
    out.push(StepLine {
        number: text(" 2 "),
        label: text(" Tweak grayscale / threshold / preview "),
        lit: tweaking,
        bright: tweaking || !importing,
        marker: second_marker,
    });
    if kind == HomeCreationKind::Glyph {
        out.push(line(" 3 ", " Continue to Glyphs panel ", false, false, None));
    } else {
        let third_label = if kind == HomeCreationKind::Grid {
            " Configure rows, columns, bleed in popup "
        } else {
            " Configure name/FPS/grid options in popup "
        };
        let third_marker = if configuring {
            Some(text("< current"))
        } else if importing || tweaking {
            Some(empty_text())
        } else {
            Some(text("< done"))
        };
        out.push(StepLine {
            number: text(" 3 "),
            label: text(third_label),
            lit: configuring,
            bright: configuring,
            marker: third_marker,
        });
        let fourth_label = if kind == HomeCreationKind::Grid {
            " Create grid and switch to Glyphs "
        } else {
            " Create animation and switch to Glyphs "
        };
        out.push(line(" 4 ", fourth_label, false, false, None));
    }
    proof {
        assert(steps_view(out@) =~= steps(kind, stage));
    }
    out
}

/// The headline of the popup.
pub open spec fn headline(kind: HomeCreationKind, stage: CreationStage) -> Seq<char> {
    if stage == CreationStage::ConfigureGrid {
        "Create grid: adjust rows/columns/bleed here, then activate Create Grid."@
    } else if stage == CreationStage::ConfigureAnimation {
        workflow_name(kind) + ": configure in this popup, then create."@
    } else if stage == CreationStage::Tweaking {
        workflow_name(kind) + ": tweak grayscale/threshold with live preview."@
    } else {
        workflow_name(kind) + ": "@ + if is_animated_kind(kind) {
            "drop, paste, or drag images/GIFs/videos in this popup."@
        } else {
            "drop, paste, or drag files in this popup."@
        }
    }
}

pub fn creation_headline(kind: HomeCreationKind, stage: CreationStage) -> (r: String)
    ensures
        r@ == headline(kind, stage),
{
    if stage == CreationStage::ConfigureGrid {
        return text("Create grid: adjust rows/columns/bleed here, then activate Create Grid.");
    }
    let mut out: Vec<char> = Vec::new();
    push_str(
        &mut out,
        match kind {
            HomeCreationKind::Glyph => "Create glyph",
            HomeCreationKind::Grid => "Create grid",
            HomeCreationKind::AnimatedGlyph => "Create animated glyph",
            HomeCreationKind::AnimatedGridGlyph => "Create animated grid glyph",
        },
    );
    if stage == CreationStage::ConfigureAnimation {
        push_str(&mut out, ": configure in this popup, then create.");
    } else if stage == CreationStage::Tweaking {
        push_str(&mut out, ": tweak grayscale/threshold with live preview.");
    } else {
        push_str(&mut out, ": ");
        match kind {
            HomeCreationKind::AnimatedGlyph | HomeCreationKind::AnimatedGridGlyph => push_str(
                &mut out,
                "drop, paste, or drag images/GIFs/videos in this popup.",
            ),
            _ => push_str(&mut out, "drop, paste, or drag files in this popup."),
        }
    }
    proof {
        assert(out@ =~= headline(kind, stage));
    }
    string_of(&out)
}

/// What Enter does, as the popup's footer says it; `finishes` tells
/// whether the glyph being tweaked is the last one.
pub fn creation_enter_hint(kind: HomeCreationKind, stage: CreationStage, finishes: bool) -> (r: &'static str)
    ensures
        r@ == (if stage == CreationStage::ConfigureGrid {
            " continue / create grid    "@
        } else if stage == CreationStage::ConfigureAnimation {
            " continue / create animation    "@
        } else if stage == CreationStage::Tweaking {
            if kind == HomeCreationKind::Glyph {
                if finishes {
                    " finish and open Glyphs    "@
                } else {
                    " next preview    "@
                }
            } else {
                " continue to next step    "@
            }
        } else {
            " continue to tweaking step    "@
        }),
{
    match stage {
        CreationStage::ConfigureGrid => " continue / create grid    ",
        CreationStage::ConfigureAnimation => " continue / create animation    ",
        CreationStage::Tweaking => match kind {
            HomeCreationKind::Glyph => if finishes {
                " finish and open Glyphs    "
            } else {
                " next preview    "
            },
            _ => " continue to next step    ",
        },
        CreationStage::Import => " continue to tweaking step    ",
    }
}


/// The stages a popup for `kind` goes through.
pub open spec fn stage_of_kind(kind: HomeCreationKind, stage: CreationStage) -> bool {
    match stage {
        CreationStage::Import | CreationStage::Tweaking => true,
        CreationStage::ConfigureGrid => kind == HomeCreationKind::Grid,
        CreationStage::ConfigureAnimation => is_animated_kind(kind),
    }
}

/// At every stage of its workflow, the popup marks exactly one step as
/// the current one, and that step's number is lit.
pub proof fn lemma_one_current_step(kind: HomeCreationKind, stage: CreationStage)
    requires
        stage_of_kind(kind, stage),
    ensures
        ({
            let s = steps(kind, stage);
            &&& exists|i: int| 0 <= i < s.len() && #[trigger] s[i].4 == Some("< current"@) && s[i].2
            &&& forall|i: int, j: int|
                0 <= i < s.len() && 0 <= j < s.len() && #[trigger] s[i].4 == Some("< current"@) && #[trigger] s[j].4
                    == Some("< current"@) ==> i == j
        }),
{
    reveal_strlit("< current");
    reveal_strlit("< done");
    let s = steps(kind, stage);
    let i: int = match stage {
        CreationStage::Import => 0,
        CreationStage::Tweaking => 1,
        _ => 2,
    };
    assert(s[i].4 == Some("< current"@) && s[i].2);
    assert("< current"@.len() == 9 && "< done"@.len() == 6);
    assert forall|a: int| 0 <= a < s.len() && s[a].4 == Some("< current"@) implies a == i by {
        if a != i {
            assert(s[a].4 != Some("< current"@));
        }
    }
}

} // verus!
