//! Keys on the tweaking step of the creation popup: the grayscale toggle
//! and its options editor, the preview threshold, the previewed frame and
//! the number of frames of an exported test image.
use vstd::prelude::*;
use crate::config_keys::{
    adjust_grayscale_editor, clamp_int, move_import_settings_focus, moved_focus,
    normalize_import_settings_focus, rotate_grayscale_knob_left, rotate_grayscale_knob_right,
    AnimationImportSettingsState, GrayscaleKnobFocus, GrayscaleOptionsEditor, GRAYSCALE_BRIGHTNESS_MAX,
    GRAYSCALE_BRIGHTNESS_MIN, GRAYSCALE_CONTRAST_MAX, GRAYSCALE_CONTRAST_MIN, GRAYSCALE_GAMMA_MAX,
    GRAYSCALE_GAMMA_MIN, grayscale_in_range,
};
use crate::controls::{is_animated, visible_focuses, Key, KeyPress};
use crate::home_panel::{is_down, is_left, is_right, is_up};
use crate::model::{AnimationImportSettingsFocus, HomeCreationKind};
use crate::text::{decimal, push_decimal, push_str, string_of};

verus! {

/// The fewest and most frames a test image can be exported with.
pub const EXPORT_TEST_FRAMES_MIN: u16 = 1;
pub const EXPORT_TEST_FRAMES_MAX: u16 = 120;

/// What the caller does after a key on the tweaking step: whether the key
/// was used (an unused key goes on to the workflow), the new status line if
/// any, and whether to export a test image now.
#[derive(Debug, Clone)]
pub struct ImportSettingsOutcome {
    pub handled: bool,
    pub status: Option<String>,
    pub export_test_image: bool,
}

pub open spec fn outcome_view(o: ImportSettingsOutcome) -> (bool, Option<Seq<char>>, bool) {
    (
        o.handled,
        match o.status {
            Some(s) => Some(s@),
            None => None,
        },
        o.export_test_image,
    )
}

pub open spec fn knob_left(f: GrayscaleKnobFocus) -> GrayscaleKnobFocus {
    match f {
        GrayscaleKnobFocus::Brightness | GrayscaleKnobFocus::Contrast => GrayscaleKnobFocus::Brightness,
        GrayscaleKnobFocus::Gamma => GrayscaleKnobFocus::Contrast,
    }
}

pub open spec fn knob_right(f: GrayscaleKnobFocus) -> GrayscaleKnobFocus {
    match f {
        GrayscaleKnobFocus::Brightness => GrayscaleKnobFocus::Contrast,
        GrayscaleKnobFocus::Contrast | GrayscaleKnobFocus::Gamma => GrayscaleKnobFocus::Gamma,
    }
}

/// The editor after turning its focused knob one step up (`up`) or down.
pub open spec fn turned(e: GrayscaleOptionsEditor, up: bool) -> GrayscaleOptionsEditor {
    let d: int = if up { 1 } else { -1 };
    let o = e.draft;
    let draft = match e.focus {
        GrayscaleKnobFocus::Brightness => crate::model::GrayscaleOptions {
            brightness: clamp_int(o.brightness + d, GRAYSCALE_BRIGHTNESS_MIN as int, GRAYSCALE_BRIGHTNESS_MAX as int) as i16,
            ..o
        },
        GrayscaleKnobFocus::Contrast => crate::model::GrayscaleOptions {
            contrast: clamp_int(o.contrast + d, GRAYSCALE_CONTRAST_MIN as int, GRAYSCALE_CONTRAST_MAX as int) as i16,
            ..o
        },
        GrayscaleKnobFocus::Gamma => crate::model::GrayscaleOptions {
            gamma_percent: clamp_int(o.gamma_percent + d * 5, GRAYSCALE_GAMMA_MIN as int, GRAYSCALE_GAMMA_MAX as int) as u16,
            ..o
        },
    };
    GrayscaleOptionsEditor { draft, ..e }
}

pub open spec fn grayscale_message(enabled: bool) -> Seq<char> {
    "grayscale "@ + (if enabled { "enabled"@ } else { "disabled"@ }) + " for imported GIF/video frames"@
}

pub open spec fn threshold_message(threshold: u8, base: u8) -> Seq<char> {
    "preview threshold set to "@ + decimal(threshold as nat) + " ("@ + (if threshold == base {
        "default"@
    } else {
        "custom"@
    }) + ")"@
}

pub open spec fn frame_message(next: nat, total: nat) -> Seq<char> {
    "preview frame "@ + decimal(next + 1) + seq!['/'] + decimal(total)
}

pub open spec fn export_count_message(count: u16) -> Seq<char> {
    "test-image export frame count set to "@ + decimal(count as nat)
}

pub open spec fn editor_hint() -> Seq<char> {
    "editing grayscale options: \u{2190}/\u{2192} choose knob, \u{2191}/\u{2193} change, Enter apply, Esc cancel"@
}

/// The previewed frame one step on (`up`) or back among `total` frames,
/// wrapping around.
pub open spec fn stepped_frame(index: nat, total: nat, up: bool) -> nat {
    let current = index % total;
    if up {
        (current + 1) % total
    } else if current == 0 {
        (total - 1) as nat
    } else {
        (current - 1) as nat
    }
}

pub open spec fn normalized(s: AnimationImportSettingsState, kind: HomeCreationKind) -> AnimationImportSettingsState {
    if visible_focuses(kind).contains(s.focus) {
        s
    } else {
        AnimationImportSettingsState { focus: AnimationImportSettingsFocus::Continue, ..s }
    }
}

/// A key while the grayscale editor is open: Esc restores the options it
/// was opened with, Enter applies the draft, the arrows pick and turn knobs.
pub open spec fn editor_step(s: AnimationImportSettingsState, e: GrayscaleOptionsEditor, k: Key) -> (AnimationImportSettingsState, (bool, Option<Seq<char>>, bool)) {
    if k == Key::Esc {
        (
            AnimationImportSettingsState { grayscale_options: e.original, grayscale_editor: None, ..s },
            (true, Some("grayscale options edit canceled"@), false),
        )
    } else if k == Key::Enter {
        (
            AnimationImportSettingsState { grayscale_options: e.draft, grayscale_editor: None, ..s },
            (true, Some("grayscale options updated"@), false),
        )
    } else if is_left(k) {
        (
            AnimationImportSettingsState { grayscale_editor: Some(GrayscaleOptionsEditor { focus: knob_left(e.focus), ..e }), ..s },
            (true, None, false),
        )
    } else if is_right(k) {
        (
            AnimationImportSettingsState { grayscale_editor: Some(GrayscaleOptionsEditor { focus: knob_right(e.focus), ..e }), ..s },
            (true, None, false),
        )
    } else if is_up(k) || is_down(k) {
        (AnimationImportSettingsState { grayscale_editor: Some(turned(e, is_up(k))), ..s }, (true, None, false))
    } else {
        (s, (false, None, false))
    }
}

/// Up (`up`) or Down on the focused control: toggles grayscale, steps the
/// threshold (saturating), the previewed frame (wrapping, animations only)
/// or the export frame count (within its bounds, animations only).
pub open spec fn change_step(n: AnimationImportSettingsState, up: bool, animated: bool, base_threshold: u8, frame_count: nat) -> (AnimationImportSettingsState, (bool, Option<Seq<char>>, bool)) {
    if n.focus == AnimationImportSettingsFocus::GrayscaleToggle {
        (
            AnimationImportSettingsState { grayscale_enabled: !n.grayscale_enabled, ..n },
            (true, Some(grayscale_message(!n.grayscale_enabled)), false),
        )
    } else if n.focus == AnimationImportSettingsFocus::Threshold {
        let t = (if up {
            if n.threshold < 255 { n.threshold + 1 } else { 255 }
        } else {
            if n.threshold > 0 { n.threshold - 1 } else { 0 }
        }) as u8;
        (AnimationImportSettingsState { threshold: t, ..n }, (true, Some(threshold_message(t, base_threshold)), false))
    } else if n.focus == AnimationImportSettingsFocus::FramesButton && animated {
        if frame_count == 0 {
            (n, (true, Some("import at least one animation frame first"@), false))
        } else {
            let next = stepped_frame(n.preview_frame_index as nat, frame_count, up);
            (
                AnimationImportSettingsState { preview_frame_index: next as usize, ..n },
                (true, Some(frame_message(next, frame_count)), false),
            )
        }
    } else if n.focus == AnimationImportSettingsFocus::ExportTestImageButton && animated {
        let c = clamp_int(
            n.export_frame_count + (if up { 1int } else { -1int }),
            EXPORT_TEST_FRAMES_MIN as int,
            EXPORT_TEST_FRAMES_MAX as int,
        ) as u16;
        (AnimationImportSettingsState { export_frame_count: c, ..n }, (true, Some(export_count_message(c)), false))
    } else {
        (n, (true, None, false))
    }
}

/// Enter on the focused control: toggles grayscale, opens the grayscale
/// editor on the current options, or asks for a test image; other
/// controls leave the key to the workflow.
pub open spec fn enter_step(n: AnimationImportSettingsState) -> (AnimationImportSettingsState, (bool, Option<Seq<char>>, bool)) {
    if n.focus == AnimationImportSettingsFocus::GrayscaleToggle {
        (
            AnimationImportSettingsState { grayscale_enabled: !n.grayscale_enabled, ..n },
            (true, Some(grayscale_message(!n.grayscale_enabled)), false),
        )
    } else if n.focus == AnimationImportSettingsFocus::GrayscaleOptionsButton {
        (
            AnimationImportSettingsState {
                grayscale_editor: Some(
                    GrayscaleOptionsEditor { original: n.grayscale_options, draft: n.grayscale_options, focus: GrayscaleKnobFocus::Brightness },
                ),
                ..n
            },
            (true, Some(editor_hint()), false),
        )
    } else if n.focus == AnimationImportSettingsFocus::ExportTestImageButton {
        (n, (true, None, true))
    } else {
        (n, (false, None, false))
    }
}

/// A key on the tweaking step.  `tweaking` is the kind being tweaked (when
/// the workflow is at that step), `base_threshold` the project's threshold,
/// `frame_count` the number of frames selected, and `busy` whether an
/// animation is being created (every key is then swallowed).  Without the
/// editor open, a focus the kind does not show first falls back to Continue.
pub open spec fn settings_step(
    s: AnimationImportSettingsState,
    tweaking: Option<HomeCreationKind>,
    base_threshold: u8,
    frame_count: nat,
    busy: bool,
    k: Key,
) -> (AnimationImportSettingsState, (bool, Option<Seq<char>>, bool)) {
    if busy {
        (s, (true, None, false))
    } else if s.grayscale_editor is Some {
        editor_step(s, s.grayscale_editor->0, k)
    } else {
        let kind = match tweaking {
            Some(t) => t,
            None => HomeCreationKind::AnimatedGlyph,
        };
        let animated = tweaking matches Some(t) && is_animated(t);
        let n = normalized(s, kind);
        if is_left(k) || is_right(k) {
            (
                AnimationImportSettingsState { focus: moved_focus(kind, n.focus, if is_left(k) { -1i8 } else { 1i8 }), ..n },
                (true, None, false),
            )
        } else if is_up(k) || is_down(k) {
            change_step(n, is_up(k), animated, base_threshold, frame_count)
        } else if k == Key::Enter {
            enter_step(n)
        } else {
            (n, (false, None, false))
        }
    }
}

fn outcome(handled: bool, status: Option<String>, export_test_image: bool) -> (r: ImportSettingsOutcome)
    ensures
        r.handled == handled,
        r.status == status,
        r.export_test_image == export_test_image,
{
    ImportSettingsOutcome { handled, status, export_test_image }
}

fn grayscale_status(enabled: bool) -> (r: String)
    ensures
        r@ == grayscale_message(enabled),
{
    let mut out: Vec<char> = Vec::new();
    push_str(&mut out, "grayscale ");
    push_str(&mut out, if enabled { "enabled" } else { "disabled" });
    push_str(&mut out, " for imported GIF/video frames");
    proof {
        assert(out@ =~= grayscale_message(enabled));
    }
    string_of(&out)
}

fn threshold_status(threshold: u8, base: u8) -> (r: String)
    ensures
        r@ == threshold_message(threshold, base),
{
    let mut out: Vec<char> = Vec::new();
    push_str(&mut out, "preview threshold set to ");
    push_decimal(&mut out, threshold as u64);
    push_str(&mut out, " (");
    push_str(&mut out, if threshold == base { "default" } else { "custom" });
    push_str(&mut out, ")");
    proof {
        assert(out@ =~= threshold_message(threshold, base));
    }
    string_of(&out)
}

fn frame_status(next: usize, total: usize) -> (r: String)
    requires
        next < total,
    ensures
        r@ == frame_message(next as nat, total as nat),
{
    let mut out: Vec<char> = Vec::new();
    push_str(&mut out, "preview frame ");
    push_decimal(&mut out, (next + 1) as u64);
    out.push('/');
    push_decimal(&mut out, total as u64);
    proof {
        assert(out@ =~= frame_message(next as nat, total as nat));
    }
    string_of(&out)
}

fn export_count_status(count: u16) -> (r: String)
    ensures
        r@ == export_count_message(count),
{
    let mut out: Vec<char> = Vec::new();
    push_str(&mut out, "test-image export frame count set to ");
    push_decimal(&mut out, count as u64);
    proof {
        assert(out@ =~= export_count_message(count));
    }
    string_of(&out)
}

fn editor_key(settings: &mut AnimationImportSettingsState, e: GrayscaleOptionsEditor, k: Key) -> (r: ImportSettingsOutcome)
    ensures
        (*final(settings), outcome_view(r)) == editor_step(*old(settings), e, k),
{
    let up = k == Key::Up || k == Key::Char('k');
    let down = k == Key::Down || k == Key::Char('j');
    let left = k == Key::Left || k == Key::Char('h');
    let right = k == Key::Right || k == Key::Char('l');
    if k == Key::Esc {
        settings.grayscale_options = e.original;
        settings.grayscale_editor = None;
        outcome(true, Some("grayscale options edit canceled".to_owned()), false)
    } else if k == Key::Enter {
        settings.grayscale_options = e.draft;
        settings.grayscale_editor = None;
        outcome(true, Some("grayscale options updated".to_owned()), false)
    } else if left || right || up || down {
        let mut edited = e;
        if left {
            rotate_grayscale_knob_left(&mut edited);
        } else if right {
            rotate_grayscale_knob_right(&mut edited);
        } else {
            adjust_grayscale_editor(&mut edited, if up { 1 } else { -1 });
            proof {
                assert(edited.draft == turned(e, up).draft);
            }
        }
        settings.grayscale_editor = Some(edited);
        outcome(true, None, false)
    } else {
        outcome(false, None, false)
    }
}

fn change_key(settings: &mut AnimationImportSettingsState, up: bool, animated: bool, base_threshold: u8, frame_count: usize) -> (r: ImportSettingsOutcome)
    ensures
        (*final(settings), outcome_view(r)) == change_step(*old(settings), up, animated, base_threshold, frame_count as nat),
{
    if settings.focus == AnimationImportSettingsFocus::GrayscaleToggle {
        settings.grayscale_enabled = !settings.grayscale_enabled;
        return outcome(true, Some(grayscale_status(settings.grayscale_enabled)), false);
    }
    if settings.focus == AnimationImportSettingsFocus::Threshold {
        let t = if up {
            if settings.threshold < 255 { settings.threshold + 1 } else { 255 }
        } else {
            if settings.threshold > 0 { settings.threshold - 1 } else { 0 }
        };
        settings.threshold = t;
        return outcome(true, Some(threshold_status(t, base_threshold)), false);
    }
    if settings.focus == AnimationImportSettingsFocus::FramesButton && animated {
        if frame_count == 0 {
            return outcome(true, Some("import at least one animation frame first".to_owned()), false);
        }
        let current = settings.preview_frame_index % frame_count;
        let next = if up {
            (current + 1) % frame_count
        } else if current == 0 {
            frame_count - 1
        } else {
            current - 1
        };
        settings.preview_frame_index = next;
        return outcome(true, Some(frame_status(next, frame_count)), false);
    }
    if settings.focus == AnimationImportSettingsFocus::ExportTestImageButton && animated {
        let c = settings.export_frame_count;
        let next = if up {
            if c < EXPORT_TEST_FRAMES_MIN {
                EXPORT_TEST_FRAMES_MIN
            } else if c >= EXPORT_TEST_FRAMES_MAX {
                EXPORT_TEST_FRAMES_MAX
            } else {
                c + 1
            }
        } else {
            if c <= EXPORT_TEST_FRAMES_MIN {
                EXPORT_TEST_FRAMES_MIN
            } else if c - 1 > EXPORT_TEST_FRAMES_MAX {
                EXPORT_TEST_FRAMES_MAX
            } else {
                c - 1
            }
        };
        settings.export_frame_count = next;
        return outcome(true, Some(export_count_status(next)), false);
    }
    outcome(true, None, false)
}

fn enter_key(settings: &mut AnimationImportSettingsState) -> (r: ImportSettingsOutcome)
    ensures
        (*final(settings), outcome_view(r)) == enter_step(*old(settings)),
{
    if settings.focus == AnimationImportSettingsFocus::GrayscaleToggle {
        settings.grayscale_enabled = !settings.grayscale_enabled;
        return outcome(true, Some(grayscale_status(settings.grayscale_enabled)), false);
    }
    if settings.focus == AnimationImportSettingsFocus::GrayscaleOptionsButton {
        let current = settings.grayscale_options;
        settings.grayscale_editor = Some(
            GrayscaleOptionsEditor { original: current, draft: current, focus: GrayscaleKnobFocus::Brightness },
        );
        return outcome(
            true,
            Some("editing grayscale options: \u{2190}/\u{2192} choose knob, \u{2191}/\u{2193} change, Enter apply, Esc cancel".to_owned()),
            false,
        );
    }
    if settings.focus == AnimationImportSettingsFocus::ExportTestImageButton {
        return outcome(true, None, true);
    }
    outcome(false, None, false)
}

/// Applies a key to the tweaking step of the creation popup: with the
/// grayscale editor open, the arrows pick and turn its knobs, Enter applies
/// and Esc cancels the draft; otherwise Left/Right move the focus among the
/// controls the kind shows, Up/Down change the focused setting and Enter
/// acts on the focused button.
pub fn handle_animation_import_settings_key(
    settings: &mut AnimationImportSettingsState,
    tweaking: Option<HomeCreationKind>,
    base_threshold: u8,
    frame_count: usize,
    animation_create_in_progress: bool,
    key: &KeyPress,
) -> (r: ImportSettingsOutcome)
    ensures
        (*final(settings), outcome_view(r)) == settings_step(
            *old(settings),
            tweaking,
            base_threshold,
            frame_count as nat,
            animation_create_in_progress,
            key.code,
        ),
{
    let k = key.code;
    if animation_create_in_progress {
        return outcome(true, None, false);
    }
    match settings.grayscale_editor {
        Some(e) => {
            return editor_key(settings, e, k);
        },
        None => {},
    }
    let kind = match tweaking {
        Some(t) => t,
        None => HomeCreationKind::AnimatedGlyph,
    };
    let animated = match tweaking {
        Some(t) => crate::controls::is_animated_home_creation(t),
        None => false,
    };
    normalize_import_settings_focus(settings, kind);
    let up = k == Key::Up || k == Key::Char('k');
    let down = k == Key::Down || k == Key::Char('j');
    let left = k == Key::Left || k == Key::Char('h');
    let right = k == Key::Right || k == Key::Char('l');
    if left || right {
        move_import_settings_focus(settings, kind, if left { -1 } else { 1 });
        return outcome(true, None, false);
    }
    if up || down {
        return change_key(settings, up, animated, base_threshold, frame_count);
    }
    if k == Key::Enter {
        return enter_key(settings);
    }
    outcome(false, None, false)
}


/// The tones of the settings, and of the editor's options and draft when
/// it is open, are within their ranges.
pub open spec fn tones_in_range(s: AnimationImportSettingsState) -> bool {
    &&& grayscale_in_range(s.grayscale_options)
    &&& s.grayscale_editor matches Some(e) ==> grayscale_in_range(e.original) && grayscale_in_range(e.draft)
}

/// No key on the tweaking step takes a tone out of its range.
pub proof fn lemma_tones_stay_in_range(
    s: AnimationImportSettingsState,
    tweaking: Option<HomeCreationKind>,
    base_threshold: u8,
    frame_count: nat,
    busy: bool,
    k: Key,
)
    requires
        tones_in_range(s),
    ensures
        tones_in_range(settings_step(s, tweaking, base_threshold, frame_count, busy, k).0),
{
}

} // verus!
