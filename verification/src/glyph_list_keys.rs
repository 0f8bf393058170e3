//! Keys on the glyph list of the Glyphs view and its preview pane, once
//! the grid popup and the animation tool have had their turn: moving the
//! selection, stepping through the preview controls, changing the
//! threshold, fps or invert of the selected row, and the list commands.
use vstd::prelude::*;
use crate::codepoints::views;
use crate::controls::{Key, KeyPress};
use crate::home_panel::{is_down, is_left, is_right, is_up};
use crate::model::{AnimationDef, GlyphPreviewControl};
use crate::glyph_tools::contains_text;
use crate::text::{push_str, string_of};

verus! {

/// The part of the Glyphs view that has the focus.
#[derive(Debug, Clone, Copy, PartialEq, Eq, Structural)]
pub enum GlyphsFocus {
    List,
    Preview,
    InstallButton,
}

/// The state of the glyph list: the focus, the preview control that has
/// the focus within the preview pane, the selected row, and whether the
/// list is picking a source for a new grid or frames for an animation.
#[derive(Debug, Clone, Copy, PartialEq, Eq, Structural)]
pub struct GlyphListState {
    pub focus: GlyphsFocus,
    pub control: GlyphPreviewControl,
    pub selected: usize,
    pub selecting_for_grid: bool,
    pub selecting_for_frames: bool,
}

/// What the list knows of itself and of the selected row when a key
/// comes: the number of rows, whether the row is a tile of a grid, whether
/// it has a source, which preview controls it offers, its threshold and
/// fps, whether a project is open and whether a background task runs.
#[derive(Debug, Clone, Copy, PartialEq, Eq, Structural)]
pub struct GlyphRowFacts {
    pub row_count: usize,
    pub is_child: bool,
    pub has_source: bool,
    pub supports_threshold: bool,
    pub supports_fps: bool,
    pub supports_invert: bool,
    pub threshold: Option<u8>,
    pub fps: Option<u8>,
    pub has_active_project: bool,
    pub busy: bool,
}

/// What the caller does after a key on the glyph list.
#[derive(Debug, Clone, Copy, PartialEq, Eq, Structural)]
pub enum GlyphListAction {
    Idle,
    Quit,
    /// Move the threshold of the selection by one step, up or down.
    StepThreshold(bool),
    SetThreshold(u8),
    SetFps(u8),
    ToggleInvert,
    /// Start an install from the list.
    Install,
    /// Go to the Home panel with its install button focused and install.
    InstallFromButton,
    /// Open the grid popup for the selected source.
    OpenGridConfig,
    ToggleExpansion,
    ApplyDefaultComposition,
    ClearComposition,
    DeleteAnimation,
    Rescan,
    RemoveThresholdOverride,
    /// Leave the animation tool and drop its draft.
    CancelFramePicking,
}

/// What a key on the glyph list gives: the new state, the action and the
/// status line to show, if any.
#[derive(Debug, Clone)]
pub struct GlyphListOutcome {
    pub state: GlyphListState,
    pub action: GlyphListAction,
    pub status: Option<String>,
}

pub open spec fn status_view(s: Option<String>) -> Option<Seq<char>> {
    match s {
        Some(t) => Some(t@),
        None => None,
    }
}

pub open spec fn supports(f: GlyphRowFacts, c: GlyphPreviewControl) -> bool {
    match c {
        GlyphPreviewControl::Threshold => f.supports_threshold,
        GlyphPreviewControl::Fps => f.supports_fps,
        GlyphPreviewControl::Invert => f.supports_invert,
    }
}

pub open spec fn supports_any(f: GlyphRowFacts) -> bool {
    f.supports_threshold || f.supports_fps || f.supports_invert
}

/// The leftmost control the row offers.
pub open spec fn leftmost(f: GlyphRowFacts) -> Option<GlyphPreviewControl> {
    if f.supports_threshold {
        Some(GlyphPreviewControl::Threshold)
    } else if f.supports_fps {
        Some(GlyphPreviewControl::Fps)
    } else if f.supports_invert {
        Some(GlyphPreviewControl::Invert)
    } else {
        None
    }
}

/// The nearest control the row offers left of `c`.
pub open spec fn control_left_of(f: GlyphRowFacts, c: GlyphPreviewControl) -> Option<GlyphPreviewControl> {
    match c {
        GlyphPreviewControl::Threshold => None,
        GlyphPreviewControl::Fps => if f.supports_threshold {
            Some(GlyphPreviewControl::Threshold)
        } else {
            None
        },
        GlyphPreviewControl::Invert => if f.supports_fps {
            Some(GlyphPreviewControl::Fps)
        } else if f.supports_threshold {
            Some(GlyphPreviewControl::Threshold)
        } else {
            None
        },
    }
}

/// The nearest control the row offers right of `c`.
pub open spec fn control_right_of(f: GlyphRowFacts, c: GlyphPreviewControl) -> Option<GlyphPreviewControl> {
    match c {
        GlyphPreviewControl::Threshold => if f.supports_fps {
            Some(GlyphPreviewControl::Fps)
        } else if f.supports_invert {
            Some(GlyphPreviewControl::Invert)
        } else {
            None
        },
        GlyphPreviewControl::Fps => if f.supports_invert {
            Some(GlyphPreviewControl::Invert)
        } else {
            None
        },
        GlyphPreviewControl::Invert => None,
    }
}

pub open spec fn u8_up(v: u8, by: nat) -> u8 {
    if v + by > 255 {
        255
    } else {
        (v + by) as u8
    }
}

pub open spec fn u8_down(v: u8, by: nat) -> u8 {
    if v < by {
        0
    } else {
        (v - by) as u8
    }
}

pub open spec fn fps_clamp(v: u8) -> u8 {
    if v < 1 {
        1
    } else if v > 30 {
        30
    } else {
        v
    }
}

pub open spec fn idle(s: GlyphListState) -> (GlyphListState, GlyphListAction, Option<Seq<char>>) {
    (s, GlyphListAction::Idle, None)
}

pub open spec fn with_focus(s: GlyphListState, focus: GlyphsFocus) -> GlyphListState {
    GlyphListState { focus, ..s }
}

/// Up or Down on the preview pane changes the focused control's value.
pub open spec fn preview_value_step(s: GlyphListState, f: GlyphRowFacts, up: bool) -> (GlyphListState, GlyphListAction, Option<Seq<char>>) {
    match s.control {
        GlyphPreviewControl::Threshold => match f.threshold {
            Some(v) => (s, GlyphListAction::SetThreshold(if up { u8_up(v, 1) } else { u8_down(v, 1) }), None),
            None => idle(s),
        },
        GlyphPreviewControl::Fps => match f.fps {
            Some(v) => (s, GlyphListAction::SetFps(fps_clamp(if up { u8_up(v, 1) } else { u8_down(v, 1) })), None),
            None => idle(s),
        },
        GlyphPreviewControl::Invert => (s, GlyphListAction::ToggleInvert, None),
    }
}

pub open spec fn child_refused() -> Seq<char> {
    "grid tile thresholds are disabled; edit the grid parent instead"@
}

/// Left or Right on the list opens the preview pane on its leftmost
/// control, or, with no project open, steps the threshold.
pub open spec fn list_sideways_step(s: GlyphListState, f: GlyphRowFacts, up: bool) -> (GlyphListState, GlyphListAction, Option<Seq<char>>) {
    if f.is_child {
        (s, GlyphListAction::Idle, Some(child_refused()))
    } else if supports_any(f) {
        (GlyphListState { focus: GlyphsFocus::Preview, control: leftmost(f).unwrap(), ..s }, GlyphListAction::Idle, None)
    } else if !f.has_active_project {
        (s, GlyphListAction::StepThreshold(up), None)
    } else {
        idle(s)
    }
}

pub open spec fn esc_step(s: GlyphListState) -> (GlyphListState, GlyphListAction, Option<Seq<char>>) {
    if s.selecting_for_grid {
        (GlyphListState { selecting_for_grid: false, ..s }, GlyphListAction::Idle, Some("grid selection canceled"@))
    } else if s.selecting_for_frames {
        (
            GlyphListState { selecting_for_frames: false, ..s },
            GlyphListAction::CancelFramePicking,
            Some("animation selection canceled"@),
        )
    } else if s.focus == GlyphsFocus::Preview {
        (with_focus(s, GlyphsFocus::List), GlyphListAction::Idle, None)
    } else {
        (s, GlyphListAction::Quit, None)
    }
}

pub open spec fn down_step(s: GlyphListState, f: GlyphRowFacts) -> (GlyphListState, GlyphListAction, Option<Seq<char>>) {
    match s.focus {
        GlyphsFocus::InstallButton => (with_focus(s, GlyphsFocus::List), GlyphListAction::Idle, None),
        GlyphsFocus::List => if f.row_count > 0 {
            let next = if s.selected + 1 < f.row_count {
                (s.selected + 1) as usize
            } else {
                (f.row_count - 1) as usize
            };
            (GlyphListState { selected: next, ..s }, GlyphListAction::Idle, None)
        } else {
            idle(s)
        },
        GlyphsFocus::Preview => preview_value_step(s, f, false),
    }
}

pub open spec fn up_step(s: GlyphListState, f: GlyphRowFacts) -> (GlyphListState, GlyphListAction, Option<Seq<char>>) {
    match s.focus {
        GlyphsFocus::List => if s.selected == 0 {
            (with_focus(s, GlyphsFocus::InstallButton), GlyphListAction::Idle, None)
        } else {
            (GlyphListState { selected: (s.selected - 1) as usize, ..s }, GlyphListAction::Idle, None)
        },
        GlyphsFocus::InstallButton => idle(s),
        GlyphsFocus::Preview => preview_value_step(s, f, true),
    }
}

pub open spec fn left_step(s: GlyphListState, f: GlyphRowFacts) -> (GlyphListState, GlyphListAction, Option<Seq<char>>) {
    match s.focus {
        GlyphsFocus::InstallButton => idle(s),
        GlyphsFocus::List => list_sideways_step(s, f, false),
        GlyphsFocus::Preview => if !supports(f, s.control) {
            (with_focus(s, GlyphsFocus::List), GlyphListAction::Idle, None)
        } else {
            match control_left_of(f, s.control) {
                None => (with_focus(s, GlyphsFocus::List), GlyphListAction::Idle, None),
                Some(c) => (GlyphListState { control: c, ..s }, GlyphListAction::Idle, None),
            }
        },
    }
}

pub open spec fn right_step(s: GlyphListState, f: GlyphRowFacts) -> (GlyphListState, GlyphListAction, Option<Seq<char>>) {
    match s.focus {
        GlyphsFocus::InstallButton => idle(s),
        GlyphsFocus::List => list_sideways_step(s, f, true),
        GlyphsFocus::Preview => {
            let target = if supports(f, s.control) {
                control_right_of(f, s.control)
            } else {
                leftmost(f)
            };
            match target {
                None => idle(s),
                Some(c) => (GlyphListState { control: c, ..s }, GlyphListAction::Idle, None),
            }
        },
    }
}

pub open spec fn enter_step(s: GlyphListState, f: GlyphRowFacts) -> (GlyphListState, GlyphListAction, Option<Seq<char>>) {
    if s.focus == GlyphsFocus::InstallButton {
        (s, GlyphListAction::InstallFromButton, None)
    } else if s.focus == GlyphsFocus::Preview && s.control == GlyphPreviewControl::Invert {
        (s, GlyphListAction::ToggleInvert, None)
    } else if s.selecting_for_grid {
        if f.is_child {
            (s, GlyphListAction::Idle, Some("Select a standalone glyph or composition parent (children cannot be selected)"@))
        } else if f.has_source {
            (
                GlyphListState { selecting_for_grid: false, ..s },
                GlyphListAction::OpenGridConfig,
                Some("Configure grid: use arrows to change rows/cols, Right to Create"@),
            )
        } else {
            idle(s)
        }
    } else {
        (s, GlyphListAction::ToggleExpansion, None)
    }
}

/// A key on the glyph list.  The keypad's `+` and `-` (which some
/// terminals report as a keypad `k` and `m`) step the threshold wherever
/// the focus is.
pub open spec fn list_step(s: GlyphListState, f: GlyphRowFacts, key: KeyPress) -> (GlyphListState, GlyphListAction, Option<Seq<char>>) {
    let k = key.code;
    if k == Key::Char('k') && key.keypad {
        (s, GlyphListAction::StepThreshold(true), None)
    } else if k == Key::Char('m') && key.keypad {
        (s, GlyphListAction::StepThreshold(false), None)
    } else if k == Key::Esc {
        esc_step(s)
    } else if k == Key::Char('q') {
        (s, GlyphListAction::Quit, None)
    } else if is_down(k) {
        down_step(s, f)
    } else if is_up(k) {
        up_step(s, f)
    } else if k == Key::Char('-') {
        (s, GlyphListAction::StepThreshold(false), None)
    } else if is_left(k) {
        left_step(s, f)
    } else if k == Key::Char('+') || k == Key::Char('=') {
        (s, GlyphListAction::StepThreshold(true), None)
    } else if is_right(k) {
        right_step(s, f)
    } else if k == Key::Enter || k == Key::Char(' ') {
        enter_step(s, f)
    } else if k == Key::Char('c') {
        (s, GlyphListAction::ApplyDefaultComposition, None)
    } else if k == Key::Char('C') {
        (s, GlyphListAction::ClearComposition, None)
    } else if k == Key::Char('D') {
        (s, GlyphListAction::DeleteAnimation, None)
    } else if k == Key::Char('R') {
        if f.busy {
            (s, GlyphListAction::Idle, Some("a background task is in progress; wait before rescanning"@))
        } else {
            (s, GlyphListAction::Rescan, None)
        }
    } else if k == Key::Char('i') {
        (s, GlyphListAction::Install, None)
    } else if k == Key::PageUp {
        match f.threshold {
            Some(v) => (s, GlyphListAction::SetThreshold(u8_up(v, 10)), None),
            None => idle(s),
        }
    } else if k == Key::PageDown {
        match f.threshold {
            Some(v) => (s, GlyphListAction::SetThreshold(u8_down(v, 10)), None),
            None => idle(s),
        }
    } else if k == Key::Char('r') {
        (s, GlyphListAction::RemoveThresholdOverride, None)
    } else {
        idle(s)
    }
}

/// The list is well formed for `f` when the selection is a row of the
/// list (or the list is empty) and the preview pane, when focused, sits
/// on a control the selected row offers.
pub open spec fn list_wf(s: GlyphListState, f: GlyphRowFacts) -> bool {
    &&& (f.row_count == 0 || s.selected < f.row_count)
    &&& (s.focus == GlyphsFocus::Preview ==> supports(f, s.control))
}

fn outcome(state: GlyphListState, action: GlyphListAction, status: Option<&str>) -> (r: GlyphListOutcome)
    ensures
        r.state == state,
        r.action == action,
        status_view(r.status) == match status {
            Some(t) => Some(t@),
            None => None::<Seq<char>>,
        },
{
    let status = match status {
        Some(t) => {
            let mut out: Vec<char> = Vec::new();
            push_str(&mut out, t);
            Some(string_of(&out))
        },
        None => None,
    };
    GlyphListOutcome { state, action, status }
}

fn sat_up(v: u8, by: u8) -> (r: u8)
    ensures
        r == u8_up(v, by as nat),
{
    if v as u16 + by as u16 > 255 {
        255
    } else {
        v + by
    }
}

fn sat_down(v: u8, by: u8) -> (r: u8)
    ensures
        r == u8_down(v, by as nat),
{
    if v < by {
        0
    } else {
        v - by
    }
}

fn clamp_fps(v: u8) -> (r: u8)
    ensures
        r == fps_clamp(v),
{
    if v < 1 {
        1
    } else if v > 30 {
        30
    } else {
        v
    }
}

fn row_supports(f: &GlyphRowFacts, c: GlyphPreviewControl) -> (r: bool)
    ensures
        r == supports(*f, c),
{
    match c {
        GlyphPreviewControl::Threshold => f.supports_threshold,
        GlyphPreviewControl::Fps => f.supports_fps,
        GlyphPreviewControl::Invert => f.supports_invert,
    }
}

fn leftmost_of(f: &GlyphRowFacts) -> (r: Option<GlyphPreviewControl>)
    ensures
        r == leftmost(*f),
{
    crate::controls::preview_leftmost_control(f.supports_threshold, f.supports_fps, f.supports_invert)
}

fn left_of(f: &GlyphRowFacts, c: GlyphPreviewControl) -> (r: Option<GlyphPreviewControl>)
    ensures
        r == control_left_of(*f, c),
{
    match c {
        GlyphPreviewControl::Threshold => None,
        GlyphPreviewControl::Fps => if f.supports_threshold {
            Some(GlyphPreviewControl::Threshold)
        } else {
            None
        },
        GlyphPreviewControl::Invert => if f.supports_fps {
            Some(GlyphPreviewControl::Fps)
        } else if f.supports_threshold {
            Some(GlyphPreviewControl::Threshold)
        } else {
            None
        },
    }
}

fn right_of(f: &GlyphRowFacts, c: GlyphPreviewControl) -> (r: Option<GlyphPreviewControl>)
    ensures
        r == control_right_of(*f, c),
{
    match c {
        GlyphPreviewControl::Threshold => if f.supports_fps {
            Some(GlyphPreviewControl::Fps)
        } else if f.supports_invert {
            Some(GlyphPreviewControl::Invert)
        } else {
            None
        },
        GlyphPreviewControl::Fps => if f.supports_invert {
            Some(GlyphPreviewControl::Invert)
        } else {
            None
        },
        GlyphPreviewControl::Invert => None,
    }
}

fn preview_value_key(s: GlyphListState, f: &GlyphRowFacts, up: bool) -> (r: GlyphListOutcome)
    ensures
        (r.state, r.action, status_view(r.status)) == preview_value_step(s, *f, up),
{
    match s.control {
        GlyphPreviewControl::Threshold => match f.threshold {
            Some(v) => outcome(s, GlyphListAction::SetThreshold(if up { sat_up(v, 1) } else { sat_down(v, 1) }), None),
            None => outcome(s, GlyphListAction::Idle, None),
        },
        GlyphPreviewControl::Fps => match f.fps {
            Some(v) => {
                let next = if up { sat_up(v, 1) } else { sat_down(v, 1) };
                outcome(s, GlyphListAction::SetFps(clamp_fps(next)), None)
            },
            None => outcome(s, GlyphListAction::Idle, None),
        },
        GlyphPreviewControl::Invert => outcome(s, GlyphListAction::ToggleInvert, None),
    }
}

fn list_sideways_key(s: GlyphListState, f: &GlyphRowFacts, up: bool) -> (r: GlyphListOutcome)
    ensures
        (r.state, r.action, status_view(r.status)) == list_sideways_step(s, *f, up),
{
    if f.is_child {
        outcome(s, GlyphListAction::Idle, Some("grid tile thresholds are disabled; edit the grid parent instead"))
    } else if f.supports_threshold || f.supports_fps || f.supports_invert {
        let mut next = s;
        next.focus = GlyphsFocus::Preview;
        if let Some(c) = leftmost_of(f) {
            next.control = c;
        }
        outcome(next, GlyphListAction::Idle, None)
    } else if !f.has_active_project {
        outcome(s, GlyphListAction::StepThreshold(up), None)
    } else {
        outcome(s, GlyphListAction::Idle, None)
    }
}

fn esc_key(s: GlyphListState) -> (r: GlyphListOutcome)
    ensures
        (r.state, r.action, status_view(r.status)) == esc_step(s),
{
    let mut next = s;
    if s.selecting_for_grid {
        next.selecting_for_grid = false;
        outcome(next, GlyphListAction::Idle, Some("grid selection canceled"))
    } else if s.selecting_for_frames {
        next.selecting_for_frames = false;
        outcome(next, GlyphListAction::CancelFramePicking, Some("animation selection canceled"))
    } else if s.focus == GlyphsFocus::Preview {
        next.focus = GlyphsFocus::List;
        outcome(next, GlyphListAction::Idle, None)
    } else {
        outcome(s, GlyphListAction::Quit, None)
    }
}

fn vertical_key(s: GlyphListState, f: &GlyphRowFacts, up: bool) -> (r: GlyphListOutcome)
    ensures
        (r.state, r.action, status_view(r.status)) == if up {
            up_step(s, *f)
        } else {
            down_step(s, *f)
        },
{
    let mut next = s;
    if up {
        match s.focus {
            GlyphsFocus::List => {
                if s.selected == 0 {
                    next.focus = GlyphsFocus::InstallButton;
                } else {
                    next.selected = s.selected - 1;
                }
                outcome(next, GlyphListAction::Idle, None)
            },
            GlyphsFocus::InstallButton => outcome(s, GlyphListAction::Idle, None),
            GlyphsFocus::Preview => preview_value_key(s, f, true),
        }
    } else {
        match s.focus {
            GlyphsFocus::InstallButton => {
                next.focus = GlyphsFocus::List;
                outcome(next, GlyphListAction::Idle, None)
            },
            GlyphsFocus::List => {
                if f.row_count > 0 {
                    next.selected = if s.selected < f.row_count - 1 {
                        s.selected + 1
                    } else {
                        f.row_count - 1
                    };
                }
                outcome(next, GlyphListAction::Idle, None)
            },
            GlyphsFocus::Preview => preview_value_key(s, f, false),
        }
    }
}

fn sideways_key(s: GlyphListState, f: &GlyphRowFacts, right: bool) -> (r: GlyphListOutcome)
    ensures
        (r.state, r.action, status_view(r.status)) == if right {
            right_step(s, *f)
        } else {
            left_step(s, *f)
        },
{
    match s.focus {
        GlyphsFocus::InstallButton => outcome(s, GlyphListAction::Idle, None),
        GlyphsFocus::List => list_sideways_key(s, f, right),
        GlyphsFocus::Preview => {
            let mut next = s;
            let supported = row_supports(f, s.control);
            if right {
                let target = if supported {
                    right_of(f, s.control)
                } else {
                    leftmost_of(f)
                };
                if let Some(c) = target {
                    next.control = c;
                }
            } else if !supported {
                next.focus = GlyphsFocus::List;
            } else {
                match left_of(f, s.control) {
                    None => {
                        next.focus = GlyphsFocus::List;
                    },
                    Some(c) => {
                        next.control = c;
                    },
                }
            }
            outcome(next, GlyphListAction::Idle, None)
        },
    }
}

fn enter_key(s: GlyphListState, f: &GlyphRowFacts) -> (r: GlyphListOutcome)
    ensures
        (r.state, r.action, status_view(r.status)) == enter_step(s, *f),
{
    if s.focus == GlyphsFocus::InstallButton {
        outcome(s, GlyphListAction::InstallFromButton, None)
    } else if s.focus == GlyphsFocus::Preview && s.control == GlyphPreviewControl::Invert {
        outcome(s, GlyphListAction::ToggleInvert, None)
    } else if s.selecting_for_grid {
        if f.is_child {
            outcome(
                s,
                GlyphListAction::Idle,
                Some("Select a standalone glyph or composition parent (children cannot be selected)"),
            )
        } else if f.has_source {
            let mut next = s;
            next.selecting_for_grid = false;
            outcome(next, GlyphListAction::OpenGridConfig, Some("Configure grid: use arrows to change rows/cols, Right to Create"))
        } else {
            outcome(s, GlyphListAction::Idle, None)
        }
    } else {
        outcome(s, GlyphListAction::ToggleExpansion, None)
    }
}

/// Applies a key to the glyph list.  The caller hands a key to the grid
/// popup and the animation tool first, when they are open; the keypad's
/// `+` and `-` come here in any case.  A well formed list stays well
/// formed, and a frame rate it asks for is within 1..=30.
pub fn handle_glyph_list_key(s: GlyphListState, f: GlyphRowFacts, key: &KeyPress) -> (r: GlyphListOutcome)
    ensures
        (r.state, r.action, status_view(r.status)) == list_step(s, f, *key),
        list_wf(s, f) ==> list_wf(r.state, f),
        r.action matches GlyphListAction::SetFps(v) ==> 1 <= v <= 30,
{
    let k = key.code;
    let r = if k == Key::Char('k') && key.keypad {
        outcome(s, GlyphListAction::StepThreshold(true), None)
    } else if k == Key::Char('m') && key.keypad {
        outcome(s, GlyphListAction::StepThreshold(false), None)
    } else if k == Key::Esc {
        esc_key(s)
    } else if k == Key::Char('q') {
        outcome(s, GlyphListAction::Quit, None)
    } else if k == Key::Down || k == Key::Char('j') {
        vertical_key(s, &f, false)
    } else if k == Key::Up || k == Key::Char('k') {
        vertical_key(s, &f, true)
    } else if k == Key::Char('-') {
        outcome(s, GlyphListAction::StepThreshold(false), None)
    } else if k == Key::Left || k == Key::Char('h') {
        sideways_key(s, &f, false)
    } else if k == Key::Char('+') || k == Key::Char('=') {
        outcome(s, GlyphListAction::StepThreshold(true), None)
    } else if k == Key::Right || k == Key::Char('l') {
        sideways_key(s, &f, true)
    } else if k == Key::Enter || k == Key::Char(' ') {
        enter_key(s, &f)
    } else if k == Key::Char('c') {
        outcome(s, GlyphListAction::ApplyDefaultComposition, None)
    } else if k == Key::Char('C') {
        outcome(s, GlyphListAction::ClearComposition, None)
    } else if k == Key::Char('D') {
        outcome(s, GlyphListAction::DeleteAnimation, None)
    } else if k == Key::Char('R') {
        if f.busy {
            outcome(s, GlyphListAction::Idle, Some("a background task is in progress; wait before rescanning"))
        } else {
            outcome(s, GlyphListAction::Rescan, None)
        }
    } else if k == Key::Char('i') {
        outcome(s, GlyphListAction::Install, None)
    } else if k == Key::PageUp {
        match f.threshold {
            Some(v) => outcome(s, GlyphListAction::SetThreshold(sat_up(v, 10)), None),
            None => outcome(s, GlyphListAction::Idle, None),
        }
    } else if k == Key::PageDown {
        match f.threshold {
            Some(v) => outcome(s, GlyphListAction::SetThreshold(sat_down(v, 10)), None),
            None => outcome(s, GlyphListAction::Idle, None),
        }
    } else if k == Key::Char('r') {
        outcome(s, GlyphListAction::RemoveThresholdOverride, None)
    } else {
        outcome(s, GlyphListAction::Idle, None)
    };
    r
}


// ---------------------------------------------------------------------------
// Deleting an animation
// ---------------------------------------------------------------------------
pub open spec fn uses_frame(a: AnimationDef, src: Seq<char>) -> bool {
    views(a.frames@).contains(src)
}

/// The first animation from `i` on that has `src` among its frames.
pub open spec fn first_user_from(anims: Seq<AnimationDef>, src: Seq<char>, i: int) -> Option<int>
    decreases anims.len() - i,
{
    if i < 0 || i >= anims.len() {
        None
    } else if uses_frame(anims[i], src) {
        Some(i)
    } else {
        first_user_from(anims, src, i + 1)
    }
}

/// Which animation `D` deletes: when the selected row is an animation or
/// one of its frames (`row_animation`), that animation (nothing when the
/// index is stale); else the first animation using the selected source as
/// a frame.  `Err` holds the status line when there is none.
pub open spec fn delete_target(anims: Seq<AnimationDef>, row_animation: Option<usize>, source: Option<Seq<char>>) -> Result<Option<Seq<char>>, Seq<char>> {
    match row_animation {
        Some(i) => if i < anims.len() {
            Ok(Some(anims[i as int].name@))
        } else {
            Ok(None)
        },
        None => match source {
            None => Err("no glyph selected"@),
            Some(src) => match first_user_from(anims, src, 0) {
                Some(j) => Ok(Some(anims[j].name@)),
                None => Err("no animation linked to selected glyph"@),
            },
        },
    }
}

pub open spec fn target_view(r: Result<Option<String>, String>) -> Result<Option<Seq<char>>, Seq<char>> {
    match r {
        Ok(Some(n)) => Ok(Some(n@)),
        Ok(None) => Ok(None),
        Err(e) => Err(e@),
    }
}

fn text(lit: &str) -> (r: String)
    ensures
        r@ == lit@,
{
    let mut out: Vec<char> = Vec::new();
    push_str(&mut out, lit);
    string_of(&out)
}

/// Picks the animation that `D` on the glyph list deletes.
pub fn animation_to_delete(animations: &Vec<AnimationDef>, row_animation: Option<usize>, source: Option<&str>) -> (r: Result<Option<String>, String>)
    ensures
        target_view(r) == delete_target(
            animations@,
            row_animation,
            match source {
                Some(s) => Some(s@),
                None => None,
            },
        ),
{
    match row_animation {
        Some(i) => {
            if i < animations.len() {
                Ok(Some(animations[i].name.clone()))
            } else {
                Ok(None)
            }
        },
        None => match source {
            None => Err(text("no glyph selected")),
            Some(src) => {
                let mut i: usize = 0;
                while i < animations.len()
                    invariant
                        i <= animations@.len(),
                        row_animation is None,
                        source == Some(src),
                        first_user_from(animations@, src@, 0) == first_user_from(animations@, src@, i as int),
                    decreases animations@.len() - i,
                {
                    let found = contains_text(&animations[i].frames, src);
                    proof {
                        let a = animations@[i as int];
                        if let Some(j) = found {
                            assert(views(a.frames@)[j as int] == src@);
                            assert(uses_frame(a, src@));
                        }
                    }
                    if found.is_some() {
                        let name = animations[i].name.clone();
                        proof {
                            assert(first_user_from(animations@, src@, i as int) == Some(i as int));
                            assert(name@ == animations@[i as int].name@);
                        }
                        return Ok(Some(name));
                    }
                    i = i + 1;
                }
                Err(text("no animation linked to selected glyph"))
            },
        },
    }
}

/// The status line after the animation `name` was deleted.
pub fn animation_deleted_status(name: &str) -> (r: String)
    ensures
        r@ == "deleted animation `"@ + name@ + "`"@,
{
    let mut out: Vec<char> = Vec::new();
    push_str(&mut out, "deleted animation `");
    push_str(&mut out, name);
    push_str(&mut out, "`");
    string_of(&out)
}

} // verus!
