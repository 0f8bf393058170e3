//! The steps of the creation popup of the Home panel: from importing
//! sources to tweaking them one by one (standard glyphs) and on to the grid
//! or animation settings.  Each function decides what Enter leads to; the
//! caller saves thresholds, moves the popup on and shows the status line.
use vstd::prelude::*;
use crate::config_keys::{GridConfig, GridConfigFocus};
use crate::controls::{home_enter_tweaking_message, home_import_missing_sources_message, is_animated, is_animated_home_creation, missing_sources_message, enter_tweaking_message};
use crate::model::{AnimationImportSettingsFocus, AnimationType, BleedLevel, HomeCreationKind};
use crate::text::{decimal, push_decimal, push_str, string_of};

verus! {

/// What Enter on the import step leads to.
#[derive(Debug, Clone, Copy, PartialEq, Eq, Structural)]
pub enum ImportEnter {
    /// Sources are still being imported: wait.
    StillLoading,
    /// Nothing was imported yet.
    MissingSources,
    /// On to tweaking (a standard glyph starts over at its first source).
    StartTweaking,
}

pub open spec fn import_enter(kind: HomeCreationKind, frames_loading: bool, images_loading: bool, has_sources: bool) -> ImportEnter {
    if is_animated(kind) && frames_loading {
        ImportEnter::StillLoading
    } else if !is_animated(kind) && images_loading {
        ImportEnter::StillLoading
    } else if !has_sources {
        ImportEnter::MissingSources
    } else {
        ImportEnter::StartTweaking
    }
}

pub open spec fn import_enter_message(kind: HomeCreationKind, e: ImportEnter) -> Seq<char> {
    match e {
        ImportEnter::StillLoading => if is_animated(kind) {
            "animation frames are still loading"@
        } else {
            "images are still loading"@
        },
        ImportEnter::MissingSources => missing_sources_message(kind),
        ImportEnter::StartTweaking => enter_tweaking_message(kind),
    }
}

/// Enter on the import step, and the status line to show.
pub fn import_step_enter(kind: HomeCreationKind, frames_loading: bool, images_loading: bool, has_sources: bool) -> (r: (ImportEnter, &'static str))
    ensures
        r.0 == import_enter(kind, frames_loading, images_loading, has_sources),
        r.1@ == import_enter_message(kind, r.0),
{
    let animated = is_animated_home_creation(kind);
    if animated && frames_loading {
        (ImportEnter::StillLoading, "animation frames are still loading")
    } else if !animated && images_loading {
        (ImportEnter::StillLoading, "images are still loading")
    } else if !has_sources {
        (ImportEnter::MissingSources, home_import_missing_sources_message(kind))
    } else {
        (ImportEnter::StartTweaking, home_enter_tweaking_message(kind))
    }
}

/// What Enter on the tweaking step leads to.
#[derive(Debug, Clone, Copy, PartialEq, Eq, Structural)]
pub enum TweakEnter {
    /// Images are still being imported: wait.
    StillLoading,
    /// Back to the preview at `index`.
    PreviousPreview { index: usize },
    /// Back on the first preview: nothing to go back to.
    AlreadyFirst,
    /// Save the project threshold for the queued sources from `from` on and
    /// finish.
    SkipRemaining { from: usize },
    /// Save the threshold of the source at `source` and show the one at
    /// `next`.
    SaveAndNext { source: usize, next: usize },
    /// Save the threshold of the source at `source` and finish tweaking.
    SaveAndFinish { source: usize },
    /// Finish tweaking.
    Finish,
}

/// Enter on the tweaking step, for the focused control, with `queue_len`
/// sources queued and the one at `index` previewed.  Only a standard glyph
/// walks through its sources; Back and Skip all act on that walk.
pub open spec fn tweak_enter(kind: HomeCreationKind, focus: AnimationImportSettingsFocus, queue_len: nat, index: nat, images_loading: bool) -> TweakEnter {
    if images_loading {
        TweakEnter::StillLoading
    } else if kind != HomeCreationKind::Glyph {
        TweakEnter::Finish
    } else if focus == AnimationImportSettingsFocus::Back {
        if index > 0 {
            TweakEnter::PreviousPreview { index: (index - 1) as usize }
        } else {
            TweakEnter::AlreadyFirst
        }
    } else if focus == AnimationImportSettingsFocus::SkipAll {
        TweakEnter::SkipRemaining { from: (if index < queue_len { index } else { queue_len }) as usize }
    } else if index < queue_len {
        if index + 1 >= queue_len {
            TweakEnter::SaveAndFinish { source: index as usize }
        } else {
            TweakEnter::SaveAndNext { source: index as usize, next: (index + 1) as usize }
        }
    } else {
        TweakEnter::Finish
    }
}

pub fn tweaking_step_enter(kind: HomeCreationKind, focus: AnimationImportSettingsFocus, queue_len: usize, index: usize, images_loading: bool) -> (r: TweakEnter)
    ensures
        r == tweak_enter(kind, focus, queue_len as nat, index as nat, images_loading),
        r matches TweakEnter::SaveAndNext { source, next } ==> next < queue_len,
        r matches TweakEnter::PreviousPreview { index: i } ==> i < index,
{
    if images_loading {
        TweakEnter::StillLoading
    } else if kind != HomeCreationKind::Glyph {
        TweakEnter::Finish
    } else if focus == AnimationImportSettingsFocus::Back {
        if index > 0 {
            TweakEnter::PreviousPreview { index: index - 1 }
        } else {
            TweakEnter::AlreadyFirst
        }
    } else if focus == AnimationImportSettingsFocus::SkipAll {
        TweakEnter::SkipRemaining { from: if index < queue_len { index } else { queue_len } }
    } else if index < queue_len {
        if queue_len - index <= 1 {
            TweakEnter::SaveAndFinish { source: index }
        } else {
            TweakEnter::SaveAndNext { source: index, next: index + 1 }
        }
    } else {
        TweakEnter::Finish
    }
}

/// `i + 1`, saturating at `usize::MAX`.
pub open spec fn saturating_inc(i: usize) -> nat {
    if i < usize::MAX {
        (i + 1) as nat
    } else {
        i as nat
    }
}

pub open spec fn tweak_enter_message(e: TweakEnter, queue_len: nat) -> Option<Seq<char>> {
    match e {
        TweakEnter::StillLoading => Some("images are still loading"@),
        TweakEnter::PreviousPreview { index } => Some(
            "previous preview ("@ + decimal(saturating_inc(index)) + seq!['/'] + decimal(queue_len) + seq![')'],
        ),
        TweakEnter::AlreadyFirst => Some("already at first preview"@),
        TweakEnter::SkipRemaining { .. } => Some("skipped remaining previews with default settings"@),
        TweakEnter::SaveAndNext { next, .. } => Some(
            "next preview ("@ + decimal(saturating_inc(next)) + seq!['/'] + decimal(queue_len) + seq![')'],
        ),
        _ => None,
    }
}

/// The status line of a step through the previews (none when the popup
/// moves on to the next step).
pub fn tweaking_step_status(step: TweakEnter, queue_len: usize) -> (r: Option<String>)
    ensures
        (match r {
            Some(s) => Some(s@),
            None => None,
        }) == tweak_enter_message(step, queue_len as nat),
{
    let mut out: Vec<char> = Vec::new();
    match step {
        TweakEnter::StillLoading => return Some("images are still loading".to_owned()),
        TweakEnter::AlreadyFirst => return Some("already at first preview".to_owned()),
        TweakEnter::SkipRemaining { .. } => return Some("skipped remaining previews with default settings".to_owned()),
        TweakEnter::PreviousPreview { index } => {
            push_str(&mut out, "previous preview (");
            push_decimal(&mut out, (if index < usize::MAX { index + 1 } else { index }) as u64);
        },
        TweakEnter::SaveAndNext { next, .. } => {
            push_str(&mut out, "next preview (");
            push_decimal(&mut out, (if next < usize::MAX { next + 1 } else { next }) as u64);
        },
        _ => return None,
    }
    out.push('/');
    push_decimal(&mut out, queue_len as u64);
    out.push(')');
    proof {
        assert(out@ =~= tweak_enter_message(step, queue_len as nat)->0);
    }
    Some(string_of(&out))
}

/// What finishing the tweaking step leads to.
#[derive(Debug, Clone, Copy, PartialEq, Eq, Structural)]
pub enum AfterTweaking {
    /// Standard glyphs are created; `save_recent` asks to save the chosen
    /// threshold for the sources just imported (when no source was walked
    /// through).
    CompleteGlyphs { save_recent: bool },
    /// No source to split into a grid.
    MissingGridSource,
    /// Save the threshold and open the grid settings.
    ConfigureGrid,
    /// Frames are still being imported: wait.
    FramesLoading,
    /// No frame to animate.
    MissingFrames,
    /// Save the threshold and open the animation settings.
    ConfigureAnimation(AnimationType),
}

pub open spec fn after_tweaking(kind: HomeCreationKind, tweak_queue_empty: bool, has_grid_source: bool, frames_loading: bool, frame_count: nat) -> AfterTweaking {
    match kind {
        HomeCreationKind::Glyph => AfterTweaking::CompleteGlyphs { save_recent: tweak_queue_empty },
        HomeCreationKind::Grid => if has_grid_source {
            AfterTweaking::ConfigureGrid
        } else {
            AfterTweaking::MissingGridSource
        },
        _ => if frames_loading {
            AfterTweaking::FramesLoading
        } else if frame_count == 0 {
            AfterTweaking::MissingFrames
        } else {
            AfterTweaking::ConfigureAnimation(
                if kind == HomeCreationKind::AnimatedGlyph {
                    AnimationType::Standard
                } else {
                    AnimationType::Grid
                },
            )
        },
    }
}

pub fn after_tweaking_step(kind: HomeCreationKind, tweak_queue_empty: bool, has_grid_source: bool, frames_loading: bool, frame_count: usize) -> (r: AfterTweaking)
    ensures
        r == after_tweaking(kind, tweak_queue_empty, has_grid_source, frames_loading, frame_count as nat),
{
    match kind {
        HomeCreationKind::Glyph => AfterTweaking::CompleteGlyphs { save_recent: tweak_queue_empty },
        HomeCreationKind::Grid => if has_grid_source {
            AfterTweaking::ConfigureGrid
        } else {
            AfterTweaking::MissingGridSource
        },
        _ => if frames_loading {
            AfterTweaking::FramesLoading
        } else if frame_count == 0 {
            AfterTweaking::MissingFrames
        } else {
            AfterTweaking::ConfigureAnimation(
                if kind == HomeCreationKind::AnimatedGlyph {
                    AnimationType::Standard
                } else {
                    AnimationType::Grid
                },
            )
        },
    }
}

pub open spec fn after_tweaking_message(a: AfterTweaking) -> Option<Seq<char>> {
    match a {
        AfterTweaking::CompleteGlyphs { .. } => None,
        AfterTweaking::MissingGridSource => Some("create grid: drop exactly one image in the popup, then press Enter"@),
        AfterTweaking::ConfigureGrid => Some("configure grid in popup: rows, cols, bleed, then Create Grid"@),
        AfterTweaking::FramesLoading => Some("animation frames are still loading"@),
        AfterTweaking::MissingFrames => Some("drop at least one frame media file in the popup, then press Enter"@),
        AfterTweaking::ConfigureAnimation(AnimationType::Standard) => Some("configure animated glyph in popup, then Create"@),
        AfterTweaking::ConfigureAnimation(AnimationType::Grid) => Some("configure animated grid glyph in popup, then Create"@),
    }
}

pub fn after_tweaking_status(step: AfterTweaking) -> (r: Option<&'static str>)
    ensures
        (match r {
            Some(s) => Some(s@),
            None => None,
        }) == after_tweaking_message(step),
{
    match step {
        AfterTweaking::CompleteGlyphs { .. } => None,
        AfterTweaking::MissingGridSource => Some("create grid: drop exactly one image in the popup, then press Enter"),
        AfterTweaking::ConfigureGrid => Some("configure grid in popup: rows, cols, bleed, then Create Grid"),
        AfterTweaking::FramesLoading => Some("animation frames are still loading"),
        AfterTweaking::MissingFrames => Some("drop at least one frame media file in the popup, then press Enter"),
        AfterTweaking::ConfigureAnimation(AnimationType::Standard) => Some("configure animated glyph in popup, then Create"),
        AfterTweaking::ConfigureAnimation(AnimationType::Grid) => Some("configure animated grid glyph in popup, then Create"),
    }
}

/// The grid popup as it opens for `source_key`: 2 x 2, weak horizontal
/// bleed, no vertical bleed, rows focused.
pub fn default_grid_config(source_key: String) -> (r: GridConfig)
    ensures
        r.source_key@ == source_key@,
        r.rows == 2,
        r.cols == 2,
        r.horizontal_bleed == BleedLevel::Weak,
        r.vertical_bleed == BleedLevel::Off,
        r.focus == GridConfigFocus::Rows,
        r.wf(),
{
    GridConfig {
        source_key,
        rows: 2,
        cols: 2,
        horizontal_bleed: BleedLevel::Weak,
        vertical_bleed: BleedLevel::Off,
        focus: GridConfigFocus::Rows,
    }
}

} // verus!
