//! Small decisions of the editor's controls: bleed levels, which preview
//! controls a row offers, the steps of the Home creation popup, and the
//! labels that summarise grayscale and threshold settings.
use vstd::prelude::*;
use crate::model::{
    AnimationDef, AnimationImportSettingsFocus, BleedLevel, GlyphPreviewControl,
    HomeCreationKind, ImportProcessingOptions,
};
use crate::text::{decimal, push_decimal, push_str, string_of};

verus! {

// ---------------------------------------------------------------------------
// Bleed levels
// ---------------------------------------------------------------------------
pub open spec fn next_bleed(level: BleedLevel) -> BleedLevel {
    match level {
        BleedLevel::Off => BleedLevel::Weak,
        BleedLevel::Weak => BleedLevel::Strong,
        BleedLevel::Strong => BleedLevel::Off,
    }
}

pub open spec fn previous_bleed(level: BleedLevel) -> BleedLevel {
    match level {
        BleedLevel::Off => BleedLevel::Strong,
        BleedLevel::Weak => BleedLevel::Off,
        BleedLevel::Strong => BleedLevel::Weak,
    }
}

/// Cycles Off -> Weak -> Strong -> Off.
pub fn next_bleed_level(level: BleedLevel) -> (r: BleedLevel)
    ensures
        r == next_bleed(level),
{
    match level {
        BleedLevel::Off => BleedLevel::Weak,
        BleedLevel::Weak => BleedLevel::Strong,
        BleedLevel::Strong => BleedLevel::Off,
    }
}

/// Cycles Off -> Strong -> Weak -> Off.
pub fn previous_bleed_level(level: BleedLevel) -> (r: BleedLevel)
    ensures
        r == previous_bleed(level),
{
    match level {
        BleedLevel::Off => BleedLevel::Strong,
        BleedLevel::Weak => BleedLevel::Off,
        BleedLevel::Strong => BleedLevel::Weak,
    }
}

/// Stepping back undoes stepping forward, and the other way round.
pub proof fn lemma_bleed_steps_invert(level: BleedLevel)
    ensures
        previous_bleed(next_bleed(level)) == level,
        next_bleed(previous_bleed(level)) == level,
        next_bleed(next_bleed(next_bleed(level))) == level,
{
}

/// A digit typed on a bleed field: 0 is Off, 1 Weak, 2 to 9 Strong (any
/// other value Weak).
pub fn bleed_level_from_digit(digit: u32) -> (r: BleedLevel)
    ensures
        digit == 0 ==> r == BleedLevel::Off,
        2 <= digit <= 9 ==> r == BleedLevel::Strong,
        (digit == 1 || digit > 9) ==> r == BleedLevel::Weak,
{
    if digit == 0 {
        BleedLevel::Off
    } else if 2 <= digit && digit <= 9 {
        BleedLevel::Strong
    } else {
        BleedLevel::Weak
    }
}

pub open spec fn bleed_label(level: BleedLevel) -> Seq<char> {
    match level {
        BleedLevel::Off => "OFF"@,
        BleedLevel::Weak => "WEAK"@,
        BleedLevel::Strong => "STRONG"@,
    }
}

pub fn bleed_level_label(level: BleedLevel) -> (r: &'static str)
    ensures
        r@ == bleed_label(level),
{
    match level {
        BleedLevel::Off => "OFF",
        BleedLevel::Weak => "WEAK",
        BleedLevel::Strong => "STRONG",
    }
}

/// How a bleed toggle shows its value (the colour of the value).
#[derive(Debug, Clone, Copy, PartialEq, Eq, Structural)]
pub enum BleedTone {
    Alert,
    Good,
    Caution,
}

/// The text of a bleed toggle: its label, the level, and one space; the
/// level is shown in the tone of its level.
pub fn bleed_toggle_line(label: &'static str, level: BleedLevel) -> (r: (Vec<&'static str>, BleedTone))
    ensures
        r.0@.len() == 3,
        r.0@[0] == label,
        r.0@[1]@ == bleed_label(level),
        r.0@[2]@ == " "@,
        r.1 == (match level {
            BleedLevel::Off => BleedTone::Alert,
            BleedLevel::Weak => BleedTone::Good,
            BleedLevel::Strong => BleedTone::Caution,
        }),
{
    let tone = match level {
        BleedLevel::Off => BleedTone::Alert,
        BleedLevel::Weak => BleedTone::Good,
        BleedLevel::Strong => BleedTone::Caution,
    };
    let mut parts: Vec<&'static str> = Vec::new();
    parts.push(label);
    parts.push(bleed_level_label(level));
    parts.push(" ");
    (parts, tone)
}

// ---------------------------------------------------------------------------
// Keys
// ---------------------------------------------------------------------------
/// A key, as the editor distinguishes keys.
#[derive(Debug, Clone, Copy, PartialEq, Eq, Structural)]
pub enum Key {
    Char(char),
    Enter,
    Esc,
    Backspace,
    Delete,
    Tab,
    BackTab,
    Left,
    Right,
    Up,
    Down,
    Home,
    End,
    PageUp,
    PageDown,
    Other,
}

/// A key press: the key, whether Ctrl was held, and whether it came from
/// the keypad.
#[derive(Debug, Clone, Copy, PartialEq, Eq, Structural)]
pub struct KeyPress {
    pub code: Key,
    pub ctrl: bool,
    pub keypad: bool,
}

/// Some terminals report the keypad `+` as a keypad `k`.
pub fn is_keypad_plus_alias(key: &KeyPress) -> (r: bool)
    ensures
        r == (key.code == Key::Char('k') && key.keypad),
{
    match key.code {
        Key::Char(c) => c == 'k' && key.keypad,
        _ => false,
    }
}

/// Some terminals report the keypad `-` as a keypad `m`.
pub fn is_keypad_minus_alias(key: &KeyPress) -> (r: bool)
    ensures
        r == (key.code == Key::Char('m') && key.keypad),
{
    match key.code {
        Key::Char(c) => c == 'm' && key.keypad,
        _ => false,
    }
}

// ---------------------------------------------------------------------------
// Preview controls
// ---------------------------------------------------------------------------
pub open spec fn preview_controls(threshold: bool, fps: bool, invert: bool) -> Seq<GlyphPreviewControl> {
    (if threshold { seq![GlyphPreviewControl::Threshold] } else { seq![] }) + (if fps {
        seq![GlyphPreviewControl::Fps]
    } else {
        seq![]
    }) + (if invert { seq![GlyphPreviewControl::Invert] } else { seq![] })
}

/// The preview controls a row offers, left to right.
pub fn preview_controls_for_row(supports_threshold: bool, supports_fps: bool, supports_invert: bool) -> (r: Vec<GlyphPreviewControl>)
    ensures
        r@ == preview_controls(supports_threshold, supports_fps, supports_invert),
{
    let mut controls: Vec<GlyphPreviewControl> = Vec::new();
    if supports_threshold {
        controls.push(GlyphPreviewControl::Threshold);
    }
    if supports_fps {
        controls.push(GlyphPreviewControl::Fps);
    }
    if supports_invert {
        controls.push(GlyphPreviewControl::Invert);
    }
    proof {
        assert(controls@ =~= preview_controls(supports_threshold, supports_fps, supports_invert));
    }
    controls
}

/// The leftmost preview control of a row: threshold, else fps, else invert.
pub fn preview_leftmost_control(supports_threshold: bool, supports_fps: bool, supports_invert: bool) -> (r: Option<GlyphPreviewControl>)
    ensures
        r == (if supports_threshold {
            Some(GlyphPreviewControl::Threshold)
        } else if supports_fps {
            Some(GlyphPreviewControl::Fps)
        } else if supports_invert {
            Some(GlyphPreviewControl::Invert)
        } else {
            None
        }),
{
    let controls = preview_controls_for_row(supports_threshold, supports_fps, supports_invert);
    if controls.len() == 0 {
        None
    } else {
        Some(controls[0])
    }
}

// ---------------------------------------------------------------------------
// Home creation popup
// ---------------------------------------------------------------------------
pub open spec fn is_animated(kind: HomeCreationKind) -> bool {
    kind == HomeCreationKind::AnimatedGlyph || kind == HomeCreationKind::AnimatedGridGlyph
}

pub fn is_animated_home_creation(kind: HomeCreationKind) -> (r: bool)
    ensures
        r == is_animated(kind),
{
    match kind {
        HomeCreationKind::AnimatedGlyph | HomeCreationKind::AnimatedGridGlyph => true,
        _ => false,
    }
}

pub open spec fn missing_sources_message(kind: HomeCreationKind) -> Seq<char> {
    match kind {
        HomeCreationKind::Glyph => "drop at least one source image in the popup, then press Enter"@,
        HomeCreationKind::Grid => "create grid: drop exactly one image in the popup, then press Enter"@,
        _ => "drop at least one frame media file in the popup, then press Enter"@,
    }
}

/// The status shown when Enter is pressed before any source was dropped.
pub fn home_import_missing_sources_message(kind: HomeCreationKind) -> (r: &'static str)
    ensures
        r@ == missing_sources_message(kind),
{
    match kind {
        HomeCreationKind::Glyph => "drop at least one source image in the popup, then press Enter",
        HomeCreationKind::Grid => "create grid: drop exactly one image in the popup, then press Enter",
        HomeCreationKind::AnimatedGlyph | HomeCreationKind::AnimatedGridGlyph => {
            "drop at least one frame media file in the popup, then press Enter"
        },
    }
}

pub open spec fn enter_tweaking_message(kind: HomeCreationKind) -> Seq<char> {
    match kind {
        HomeCreationKind::Glyph => "tweak grayscale/threshold + preview in popup, then use Next until Finish"@,
        HomeCreationKind::Grid => "tweak grayscale/threshold + preview in popup, then Continue to grid settings"@,
        HomeCreationKind::AnimatedGlyph => "tweak grayscale/threshold + preview in popup, then Continue to animation settings"@,
        HomeCreationKind::AnimatedGridGlyph => "tweak grayscale/threshold + preview in popup, then Continue to animated grid settings"@,
    }
}

/// The status shown when the popup moves on to its tweaking step.
pub fn home_enter_tweaking_message(kind: HomeCreationKind) -> (r: &'static str)
    ensures
        r@ == enter_tweaking_message(kind),
{
    match kind {
        HomeCreationKind::Glyph => "tweak grayscale/threshold + preview in popup, then use Next until Finish",
        HomeCreationKind::Grid => "tweak grayscale/threshold + preview in popup, then Continue to grid settings",
        HomeCreationKind::AnimatedGlyph => "tweak grayscale/threshold + preview in popup, then Continue to animation settings",
        HomeCreationKind::AnimatedGridGlyph => "tweak grayscale/threshold + preview in popup, then Continue to animated grid settings",
    }
}

/// The controls of the tweaking step, in focus order.
pub open spec fn visible_focuses(kind: HomeCreationKind) -> Seq<AnimationImportSettingsFocus> {
    seq![
        AnimationImportSettingsFocus::GrayscaleToggle,
        AnimationImportSettingsFocus::GrayscaleOptionsButton,
        AnimationImportSettingsFocus::Threshold,
    ] + (if is_animated(kind) {
        seq![AnimationImportSettingsFocus::FramesButton]
    } else {
        seq![]
    }) + (if kind != HomeCreationKind::Glyph {
        seq![AnimationImportSettingsFocus::ExportTestImageButton]
    } else {
        seq![]
    }) + seq![AnimationImportSettingsFocus::Continue] + (if kind == HomeCreationKind::Glyph {
        seq![AnimationImportSettingsFocus::Back, AnimationImportSettingsFocus::SkipAll]
    } else {
        seq![]
    })
}

pub fn import_settings_visible_focuses(kind: HomeCreationKind) -> (r: Vec<AnimationImportSettingsFocus>)
    ensures
        r@ == visible_focuses(kind),
{
    let mut focuses: Vec<AnimationImportSettingsFocus> = Vec::new();
    focuses.push(AnimationImportSettingsFocus::GrayscaleToggle);
    focuses.push(AnimationImportSettingsFocus::GrayscaleOptionsButton);
    focuses.push(AnimationImportSettingsFocus::Threshold);
    if is_animated_home_creation(kind) {
        focuses.push(AnimationImportSettingsFocus::FramesButton);
    }
    if kind != HomeCreationKind::Glyph {
        focuses.push(AnimationImportSettingsFocus::ExportTestImageButton);
    }
    focuses.push(AnimationImportSettingsFocus::Continue);
    if kind == HomeCreationKind::Glyph {
        focuses.push(AnimationImportSettingsFocus::Back);
        focuses.push(AnimationImportSettingsFocus::SkipAll);
    }
    proof {
        assert(focuses@ =~= visible_focuses(kind));
    }
    focuses
}

// ---------------------------------------------------------------------------
// Grayscale and threshold labels
// ---------------------------------------------------------------------------
/// The magnitude of `v`.
pub open spec fn magnitude(v: i16) -> nat {
    if v < 0 {
        (-v) as nat
    } else {
        v as nat
    }
}

fn magnitude_u64(v: i16) -> (r: u64)
    ensures
        r as nat == magnitude(v),
{
    if v < 0 {
        let w = v as i32;
        (-w) as u64
    } else {
        v as u64
    }
}

/// A signed value in a file name: `m5` for -5, `p5` for 5.
pub open spec fn signed_filename(v: i16) -> Seq<char> {
    (if v < 0 { seq!['m'] } else { seq!['p'] }) + decimal(magnitude(v))
}

pub fn signed_filename_value(value: i16) -> (r: String)
    ensures
        r@ == signed_filename(value),
{
    let mut out: Vec<char> = Vec::new();
    out.push(if value < 0 { 'm' } else { 'p' });
    push_decimal(&mut out, magnitude_u64(value));
    proof {
        assert(out@ =~= signed_filename(value));
    }
    string_of(&out)
}

/// The integer approximation of BT.601 luma: (77 R + 150 G + 29 B) / 256.
pub fn grayscale_luminance_byte(r: u8, g: u8, b: u8) -> (y: u8)
    ensures
        y as int == (77 * r + 150 * g + 29 * b) / 256,
{
    let sum: u16 = 77u16 * (r as u16) + 150u16 * (g as u16) + 29u16 * (b as u16);
    (sum / 256) as u8
}

/// A value with its sign always shown: `+5`, `-5`, `+0`.
pub open spec fn signed_text(v: i16) -> Seq<char> {
    (if v < 0 { seq!['-'] } else { seq!['+'] }) + decimal(magnitude(v))
}

/// A percentage as a decimal with two places: 125 is `1.25`.
pub open spec fn percent_as_decimal(p: nat) -> Seq<char> {
    decimal(p / 100) + seq!['.'] + decimal((p % 100) / 10) + decimal(p % 10)
}

pub open spec fn grayscale_summary(processing: Option<ImportProcessingOptions>) -> Seq<char> {
    match processing {
        None => "gray n/a"@,
        Some(p) => if !p.grayscale_enabled {
            "gray OFF"@
        } else {
            "gray ON B"@ + signed_text(p.grayscale.brightness) + " C"@ + signed_text(
                p.grayscale.contrast,
            ) + " G"@ + percent_as_decimal(p.grayscale.gamma_percent as nat)
        },
    }
}

pub(crate) fn push_signed(out: &mut Vec<char>, v: i16)
    ensures
        final(out)@ == old(out)@ + signed_text(v),
{
    out.push(if v < 0 { '-' } else { '+' });
    push_decimal(out, magnitude_u64(v));
    proof {
        assert(final(out)@ =~= old(out)@ + signed_text(v));
    }
}

/// The grayscale settings of an import, in the form `gray ON B+0 C+0 G1.00`.
pub fn grayscale_summary_from_processing(processing: Option<ImportProcessingOptions>) -> (r: String)
    ensures
        r@ == grayscale_summary(processing),
{
    match processing {
        None => "gray n/a".to_owned(),
        Some(p) => {
            if !p.grayscale_enabled {
                return "gray OFF".to_owned();
            }
            let mut out: Vec<char> = Vec::new();
            push_str(&mut out, "gray ON B");
            push_signed(&mut out, p.grayscale.brightness);
            push_str(&mut out, " C");
            push_signed(&mut out, p.grayscale.contrast);
            push_str(&mut out, " G");
            let g = p.grayscale.gamma_percent as u64;
            push_decimal(&mut out, g / 100);
            out.push('.');
            push_decimal(&mut out, (g % 100) / 10);
            push_decimal(&mut out, g % 10);
            proof {
                assert(out@ =~= grayscale_summary(processing));
            }
            string_of(&out)
        },
    }
}

pub fn animation_grayscale_summary_label(animation: &AnimationDef) -> (r: String)
    ensures
        r@ == grayscale_summary(animation.grayscale_processing),
{
    grayscale_summary_from_processing(animation.grayscale_processing)
}

pub open spec fn threshold_summary(uniform: Option<u8>, variable: bool) -> Seq<char> {
    if variable {
        "var. threshold"@
    } else {
        match uniform {
            Some(v) => decimal(v as nat),
            None => "n/a"@,
        }
    }
}

/// The threshold of an installed animation: its value, `var. threshold`
/// when frames differ, or `n/a`.
pub fn installed_animation_threshold_summary_label(uniform_threshold: Option<u8>, variable: bool) -> (r: String)
    ensures
        r@ == threshold_summary(uniform_threshold, variable),
{
    if variable {
        return "var. threshold".to_owned();
    }
    match uniform_threshold {
        Some(v) => crate::text::decimal_string(v as u64),
        None => "n/a".to_owned(),
    }
}

} // verus!
