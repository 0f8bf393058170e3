//! The text of the tweaking step of the creation popup: the captions of its
//! buttons and which one is lit, the grayscale knobs, and the lines that
//! sum up the threshold and the grayscale profile.
use vstd::prelude::*;
use crate::config_keys::{default_grayscale, AnimationImportSettingsState, GrayscaleKnobFocus, GrayscaleOptionsEditor};
use crate::controls::{percent_as_decimal, push_signed, signed_text};
use crate::model::{AnimationImportSettingsFocus, GrayscaleOptions, HomeCreationKind};
use crate::text::{decimal, push_decimal, push_str, string_of};

verus! {

pub open spec fn marked(dirty: bool) -> Seq<char> {
    if dirty {
        " *"@
    } else {
        Seq::empty()
    }
}

/// The caption of a button of the tweaking step, padded by a space on each
/// side.  `picked` is the number of picked frames, and `tweak_index` and
/// `queue_len` the place of the image being tweaked when creating glyphs.
pub open spec fn caption(
    f: AnimationImportSettingsFocus,
    s: AnimationImportSettingsState,
    kind: HomeCreationKind,
    base_threshold: u8,
    picked: nat,
    tweak_index: nat,
    queue_len: nat,
) -> Seq<char> {
    let inner = match f {
        AnimationImportSettingsFocus::GrayscaleToggle => if s.grayscale_enabled {
            "Gray: ON"@
        } else {
            "Gray: OFF"@
        },
        AnimationImportSettingsFocus::GrayscaleOptionsButton => "Gray Options"@ + marked(
            s.grayscale_options != default_grayscale(),
        ),
        AnimationImportSettingsFocus::Threshold => "Th: "@ + decimal(s.threshold as nat) + marked(s.threshold != base_threshold),
        AnimationImportSettingsFocus::FramesButton => if picked > 0 {
            "Frames: "@ + decimal(s.preview_frame_index as nat % picked + 1) + "/"@ + decimal(picked)
        } else {
            "Frames: -"@
        },
        AnimationImportSettingsFocus::ExportTestImageButton => "Export Test"@,
        AnimationImportSettingsFocus::Continue => if kind == HomeCreationKind::Glyph {
            if tweak_index + 1 >= queue_len {
                "Finish"@
            } else {
                "Next"@
            }
        } else {
            "Continue"@
        },
        AnimationImportSettingsFocus::Back => "Back"@,
        AnimationImportSettingsFocus::SkipAll => "Skip All"@,
    };
    seq![' '] + inner + seq![' ']
}

pub fn tweak_button_caption(
    f: AnimationImportSettingsFocus,
    s: &AnimationImportSettingsState,
    kind: HomeCreationKind,
    base_threshold: u8,
    picked: usize,
    tweak_index: usize,
    queue_len: usize,
) -> (r: String)
    ensures
        r@ == caption(f, *s, kind, base_threshold, picked as nat, tweak_index as nat, queue_len as nat),
{
    let mut out: Vec<char> = Vec::new();
    out.push(' ');
    match f {
        AnimationImportSettingsFocus::GrayscaleToggle => push_str(&mut out, if s.grayscale_enabled { "Gray: ON" } else { "Gray: OFF" }),
        AnimationImportSettingsFocus::GrayscaleOptionsButton => {
            push_str(&mut out, "Gray Options");
            let o = s.grayscale_options;
            if !(o.brightness == 0 && o.contrast == 0 && o.gamma_percent == 100) {
                push_str(&mut out, " *");
            }
        },
        AnimationImportSettingsFocus::Threshold => {
            push_str(&mut out, "Th: ");
            push_decimal(&mut out, s.threshold as u64);
            if s.threshold != base_threshold {
                push_str(&mut out, " *");
            }
        },
        AnimationImportSettingsFocus::FramesButton => {
            if picked > 0 {
                push_str(&mut out, "Frames: ");
                push_decimal(&mut out, (s.preview_frame_index % picked) as u64 + 1);
                push_str(&mut out, "/");
                push_decimal(&mut out, picked as u64);
            } else {
                push_str(&mut out, "Frames: -");
            }
        },
        AnimationImportSettingsFocus::ExportTestImageButton => push_str(&mut out, "Export Test"),
        AnimationImportSettingsFocus::Continue => {
            match kind {
                HomeCreationKind::Glyph => push_str(&mut out, crate::config_keys::glyph_tweak_continue_label(tweak_index, queue_len)),
                _ => push_str(&mut out, "Continue"),
            }
        },
        AnimationImportSettingsFocus::Back => push_str(&mut out, "Back"),
        AnimationImportSettingsFocus::SkipAll => push_str(&mut out, "Skip All"),
    }
    out.push(' ');
    proof {
        assert(out@ =~= caption(f, *s, kind, base_threshold, picked as nat, tweak_index as nat, queue_len as nat));
    }
    string_of(&out)
}

/// A button of the tweaking step is lit when it has the focus and the
/// grayscale editor is closed; the options button stays lit while the
/// editor is open.
pub fn tweak_button_lit(f: AnimationImportSettingsFocus, s: &AnimationImportSettingsState) -> (r: bool)
    ensures
        r == ((s.focus == f && s.grayscale_editor is None) || (f == AnimationImportSettingsFocus::GrayscaleOptionsButton
            && s.grayscale_editor is Some)),
{
    let open = s.grayscale_editor.is_some();
    (s.focus == f && !open) || (f == AnimationImportSettingsFocus::GrayscaleOptionsButton && open)
}

/// The captions of the three knobs of the grayscale editor, and which one
/// is lit.
pub open spec fn knob_captions(e: GrayscaleOptionsEditor) -> (Seq<char>, Seq<char>, Seq<char>) {
    (
        " Brightness: "@ + signed_text(e.draft.brightness) + " "@,
        " Contrast: "@ + signed_text(e.draft.contrast) + " "@,
        " Gamma: "@ + percent_as_decimal(e.draft.gamma_percent as nat) + " "@,
    )
}

fn push_percent(out: &mut Vec<char>, p: u16)
    ensures
        final(out)@ == old(out)@ + percent_as_decimal(p as nat),
{
    let g = p as u64;
    push_decimal(out, g / 100);
    out.push('.');
    push_decimal(out, (g % 100) / 10);
    push_decimal(out, g % 10);
    proof {
        assert(final(out)@ =~= old(out)@ + percent_as_decimal(p as nat));
    }
}

pub fn grayscale_knob_captions(e: &GrayscaleOptionsEditor) -> (r: (String, String, String, GrayscaleKnobFocus))
    ensures
        (r.0@, r.1@, r.2@) == knob_captions(*e),
        r.3 == e.focus,
{
    let mut b: Vec<char> = Vec::new();
    push_str(&mut b, " Brightness: ");
    push_signed(&mut b, e.draft.brightness);
    push_str(&mut b, " ");
    let mut c: Vec<char> = Vec::new();
    push_str(&mut c, " Contrast: ");
    push_signed(&mut c, e.draft.contrast);
    push_str(&mut c, " ");
    let mut g: Vec<char> = Vec::new();
    push_str(&mut g, " Gamma: ");
    push_percent(&mut g, e.draft.gamma_percent);
    push_str(&mut g, " ");
    (string_of(&b), string_of(&c), string_of(&g), e.focus)
}

/// The grayscale profile line: the tones and whether they were changed.
pub open spec fn profile(o: GrayscaleOptions) -> Seq<char> {
    "B "@ + signed_text(o.brightness) + ", C "@ + signed_text(o.contrast) + ", G "@ + percent_as_decimal(
        o.gamma_percent as nat,
    ) + (if o == default_grayscale() {
        " (default)"@
    } else {
        " (modified*)"@
    })
}

pub fn grayscale_profile_text(o: GrayscaleOptions) -> (r: String)
    ensures
        r@ == profile(o),
{
    let mut out: Vec<char> = Vec::new();
    push_str(&mut out, "B ");
    push_signed(&mut out, o.brightness);
    push_str(&mut out, ", C ");
    push_signed(&mut out, o.contrast);
    push_str(&mut out, ", G ");
    push_percent(&mut out, o.gamma_percent);
    if o.brightness == 0 && o.contrast == 0 && o.gamma_percent == 100 {
        push_str(&mut out, " (default)");
    } else {
        push_str(&mut out, " (modified*)");
    }
    string_of(&out)
}

/// The threshold shown above the preview, and whether it is the project's.
pub fn tweak_threshold_text(threshold: u8, base_threshold: u8) -> (r: String)
    ensures
        r@ == "Threshold: "@ + decimal(threshold as nat) + (if threshold == base_threshold {
            " (default)"@
        } else {
            " (custom*)"@
        }),
{
    let mut out: Vec<char> = Vec::new();
    push_str(&mut out, "Threshold: ");
    push_decimal(&mut out, threshold as u64);
    if threshold == base_threshold {
        push_str(&mut out, " (default)");
    } else {
        push_str(&mut out, " (custom*)");
    }
    string_of(&out)
}

/// The export-count hint of animated imports.
pub fn export_count_text(count: u16) -> (r: String)
    ensures
        r@ == "Export count: "@ + decimal(count as nat) + " (focus Export + Up/Down)  "@,
{
    let mut out: Vec<char> = Vec::new();
    push_str(&mut out, "Export count: ");
    push_decimal(&mut out, count as u64);
    push_str(&mut out, " (focus Export + Up/Down)  ");
    string_of(&out)
}

} // verus!
