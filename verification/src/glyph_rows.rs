//! The text of the Glyphs view: the title of the glyph list, its rows, and
//! the line of value buttons above the preview.
use vstd::prelude::*;
use crate::model::AnimationType;
use crate::text::{decimal, push_decimal, push_str, string_of};

verus! {

/// How a piece of a glyph list line is drawn.
#[derive(Debug, Clone, Copy, PartialEq, Eq, Structural)]
pub enum RowTone {
    /// The terminal's default style.
    Raw,
    Accent,
    Magenta,
    /// White, bold.
    Strong,
    Muted,
    Yellow,
    /// Yellow, bold.
    Highlight,
    White,
    /// Black on the accent colour, bold: a focused value button.
    ButtonFocused,
    /// White on dark grey, bold.
    Button,
}

/// A piece of a glyph list line.
#[derive(Debug, Clone)]
pub struct RowSpan {
    pub text: String,
    pub tone: RowTone,
}

pub open spec fn row_view(v: Seq<RowSpan>) -> Seq<(Seq<char>, RowTone)> {
    Seq::new(v.len(), |i: int| (v[i].text@, v[i].tone))
}

fn push_span(out: &mut Vec<RowSpan>, text: String, tone: RowTone)
    ensures
        row_view(final(out)@) == row_view(old(out)@).push((text@, tone)),
{
    let ghost before = row_view(out@);
    out.push(RowSpan { text, tone });
    proof {
        assert(row_view(out@) =~= before.push((text@, tone)));
    }
}

fn literal(lit: &str) -> (r: String)
    ensures
        r@ == lit@,
{
    let mut out: Vec<char> = Vec::new();
    push_str(&mut out, lit);
    string_of(&out)
}

pub open spec fn arrow(expanded: bool) -> Seq<char> {
    if expanded {
        "[-]"@
    } else {
        "[+]"@
    }
}

pub open spec fn animation_kind_name(t: AnimationType) -> Seq<char> {
    match t {
        AnimationType::Standard => "Standard"@,
        AnimationType::Grid => "Grid"@,
    }
}

/// The title of the glyph list, with what the list is picking, if anything.
pub open spec fn list_title(selecting_for_grid: bool, selecting_for_frames: bool) -> Seq<(Seq<char>, RowTone)> {
    seq![(" Glyphs "@, RowTone::Accent)] + if selecting_for_grid {
        seq![(" select a glyph for the grid "@, RowTone::Highlight)]
    } else if selecting_for_frames {
        seq![(" select frames (Space toggle) "@, RowTone::Highlight)]
    } else {
        Seq::empty()
    }
}

pub fn glyph_list_title(selecting_for_grid: bool, selecting_for_frames: bool) -> (r: Vec<RowSpan>)
    ensures
        row_view(r@) == list_title(selecting_for_grid, selecting_for_frames),
{
    let mut out: Vec<RowSpan> = Vec::new();
    push_span(&mut out, literal(" Glyphs "), RowTone::Accent);
    if selecting_for_grid {
        push_span(&mut out, literal(" select a glyph for the grid "), RowTone::Highlight);
    } else if selecting_for_frames {
        push_span(&mut out, literal(" select frames (Space toggle) "), RowTone::Highlight);
    }
    proof {
        assert(row_view(out@) =~= list_title(selecting_for_grid, selecting_for_frames));
    }
    out
}

/// The row of an animation: the expand arrow, its name, and its type,
/// frame rate, frame count, grayscale and threshold summaries.
pub open spec fn animation_parent(
    expanded: bool,
    name: Seq<char>,
    t: AnimationType,
    fps: u8,
    frames: nat,
    grayscale: Seq<char>,
    threshold: Seq<char>,
) -> Seq<(Seq<char>, RowTone)> {
    seq![
        (arrow(expanded), RowTone::Accent),
        (" "@, RowTone::Raw),
        (" @"@, RowTone::Magenta),
        (" "@, RowTone::Raw),
        (name, RowTone::Strong),
        (" "@, RowTone::Raw),
        (
            "("@ + animation_kind_name(t) + ", "@ + decimal(fps as nat) + " fps, "@ + decimal(frames) + " frames, "@ + grayscale
                + ", th "@ + threshold + ")"@,
            RowTone::Muted,
        ),
    ]
}

pub fn animation_parent_row(
    expanded: bool,
    name: &str,
    animation_type: AnimationType,
    fps: u8,
    frame_count: usize,
    grayscale_label: &str,
    threshold_label: &str,
) -> (r: Vec<RowSpan>)
    ensures
        row_view(r@) == animation_parent(expanded, name@, animation_type, fps, frame_count as nat, grayscale_label@, threshold_label@),
{
    let mut out: Vec<RowSpan> = Vec::new();
    push_span(&mut out, literal(if expanded { "[-]" } else { "[+]" }), RowTone::Accent);
    push_span(&mut out, literal(" "), RowTone::Raw);
    push_span(&mut out, literal(" @"), RowTone::Magenta);
    push_span(&mut out, literal(" "), RowTone::Raw);
    push_span(&mut out, literal(name), RowTone::Strong);
    push_span(&mut out, literal(" "), RowTone::Raw);
    let mut t: Vec<char> = Vec::new();
    push_str(&mut t, "(");
    match animation_type {
        AnimationType::Standard => push_str(&mut t, "Standard"),
        AnimationType::Grid => push_str(&mut t, "Grid"),
    }
    push_str(&mut t, ", ");
    push_decimal(&mut t, fps as u64);
    push_str(&mut t, " fps, ");
    push_decimal(&mut t, frame_count as u64);
    push_str(&mut t, " frames, ");
    push_str(&mut t, grayscale_label);
    push_str(&mut t, ", th ");
    push_str(&mut t, threshold_label);
    push_str(&mut t, ")");
    push_span(&mut out, string_of(&t), RowTone::Muted);
    proof {
        assert(row_view(out@) =~= animation_parent(expanded, name@, animation_type, fps, frame_count as nat, grayscale_label@, threshold_label@));
    }
    out
}

/// The row of an animation frame: a `+` when it is picked, its 1-based
/// number, its codepoint (or `missing`) and the source's file name.
pub open spec fn animation_frame(picked: bool, frame_idx: nat, codepoint: Option<Seq<char>>, display: Seq<char>) -> Seq<(Seq<char>, RowTone)> {
    seq![
        (if picked { " +"@ } else { "  "@ }, RowTone::Yellow),
        ("    "@, RowTone::Raw),
        ("f"@ + decimal(frame_idx + 1) + " "@, RowTone::Muted),
        (
            match codepoint {
                Some(c) => c,
                None => "missing"@,
            } + " "@,
            RowTone::Muted,
        ),
        (display, RowTone::Raw),
    ]
}

pub fn animation_frame_row(picked: bool, frame_idx: usize, codepoint: Option<&str>, display_name: &str) -> (r: Vec<RowSpan>)
    requires
        frame_idx < usize::MAX,
    ensures
        row_view(r@) == animation_frame(
            picked,
            frame_idx as nat,
            match codepoint {
                Some(c) => Some(c@),
                None => None,
            },
            display_name@,
        ),
{
    let mut out: Vec<RowSpan> = Vec::new();
    push_span(&mut out, literal(if picked { " +" } else { "  " }), RowTone::Yellow);
    push_span(&mut out, literal("    "), RowTone::Raw);
    let mut f: Vec<char> = Vec::new();
    push_str(&mut f, "f");
    push_decimal(&mut f, frame_idx as u64 + 1);
    push_str(&mut f, " ");
    push_span(&mut out, string_of(&f), RowTone::Muted);
    let mut c: Vec<char> = Vec::new();
    match codepoint {
        Some(cp) => push_str(&mut c, cp),
        None => push_str(&mut c, "missing"),
    }
    push_str(&mut c, " ");
    push_span(&mut out, string_of(&c), RowTone::Muted);
    push_span(&mut out, literal(display_name), RowTone::Raw);
    proof {
        assert(row_view(out@) =~= animation_frame(
            picked,
            frame_idx as nat,
            match codepoint {
                Some(c) => Some(c@),
                None => None,
            },
            display_name@,
        ));
    }
    out
}

/// The row of a glyph: `*` when its threshold is overridden, else `+` when
/// it is picked as a frame; its codepoint and name.
pub open spec fn single(overridden: bool, picked: bool, codepoint: Seq<char>, name: Seq<char>) -> Seq<(Seq<char>, RowTone)> {
    seq![
        (if overridden { " *"@ } else if picked { " +"@ } else { "  "@ }, RowTone::Yellow),
        (" "@ + codepoint + " "@, RowTone::Muted),
        (name, RowTone::Raw),
    ]
}

pub fn single_glyph_row(overridden: bool, picked: bool, codepoint: &str, glyph_name: &str) -> (r: Vec<RowSpan>)
    ensures
        row_view(r@) == single(overridden, picked, codepoint@, glyph_name@),
{
    let mut out: Vec<RowSpan> = Vec::new();
    push_span(&mut out, literal(if overridden { " *" } else if picked { " +" } else { "  " }), RowTone::Yellow);
    let mut c: Vec<char> = Vec::new();
    push_str(&mut c, " ");
    push_str(&mut c, codepoint);
    push_str(&mut c, " ");
    push_span(&mut out, string_of(&c), RowTone::Muted);
    push_span(&mut out, literal(glyph_name), RowTone::Raw);
    proof {
        assert(row_view(out@) =~= single(overridden, picked, codepoint@, glyph_name@));
    }
    out
}

/// The row of a source split into a grid.
pub open spec fn composition_parent(picked: bool, expanded: bool, display: Seq<char>, rows: nat, cols: nat) -> Seq<(Seq<char>, RowTone)> {
    seq![
        (if picked { " +"@ } else { "  "@ }, RowTone::Yellow),
        (arrow(expanded), RowTone::Accent),
        (" "@, RowTone::Raw),
        (display, RowTone::White),
        (" "@, RowTone::Raw),
        ("(grid "@ + decimal(rows) + "x"@ + decimal(cols) + ")"@, RowTone::Yellow),
    ]
}

pub fn composition_parent_row(picked: bool, expanded: bool, display_name: &str, rows: usize, cols: usize) -> (r: Vec<RowSpan>)
    ensures
        row_view(r@) == composition_parent(picked, expanded, display_name@, rows as nat, cols as nat),
{
    let mut out: Vec<RowSpan> = Vec::new();
    push_span(&mut out, literal(if picked { " +" } else { "  " }), RowTone::Yellow);
    push_span(&mut out, literal(if expanded { "[-]" } else { "[+]" }), RowTone::Accent);
    push_span(&mut out, literal(" "), RowTone::Raw);
    push_span(&mut out, literal(display_name), RowTone::White);
    push_span(&mut out, literal(" "), RowTone::Raw);
    let mut g: Vec<char> = Vec::new();
    push_str(&mut g, "(grid ");
    push_decimal(&mut g, rows as u64);
    push_str(&mut g, "x");
    push_decimal(&mut g, cols as u64);
    push_str(&mut g, ")");
    push_span(&mut out, string_of(&g), RowTone::Yellow);
    proof {
        assert(row_view(out@) =~= composition_parent(picked, expanded, display_name@, rows as nat, cols as nat));
    }
    out
}

/// The row of a grid tile: `*` when overridden, its codepoint, and its
/// 1-based row and column before the glyph's name.
pub open spec fn composition_child(overridden: bool, codepoint: Seq<char>, row: nat, col: nat, name: Seq<char>) -> Seq<(Seq<char>, RowTone)> {
    seq![
        (if overridden { " *"@ } else { "  "@ }, RowTone::Yellow),
        ("    "@, RowTone::Raw),
        (codepoint + " "@, RowTone::Muted),
        ("[r"@ + decimal(row + 1) + ",c"@ + decimal(col + 1) + "] "@ + name, RowTone::Raw),
    ]
}

pub fn composition_child_row(overridden: bool, codepoint: &str, row: usize, col: usize, glyph_name: &str) -> (r: Vec<RowSpan>)
    requires
        row < usize::MAX,
        col < usize::MAX,
    ensures
        row_view(r@) == composition_child(overridden, codepoint@, row as nat, col as nat, glyph_name@),
{
    let mut out: Vec<RowSpan> = Vec::new();
    push_span(&mut out, literal(if overridden { " *" } else { "  " }), RowTone::Yellow);
    push_span(&mut out, literal("    "), RowTone::Raw);
    let mut c: Vec<char> = Vec::new();
    push_str(&mut c, codepoint);
    push_str(&mut c, " ");
    push_span(&mut out, string_of(&c), RowTone::Muted);
    let mut t: Vec<char> = Vec::new();
    push_str(&mut t, "[r");
    push_decimal(&mut t, row as u64 + 1);
    push_str(&mut t, ",c");
    push_decimal(&mut t, col as u64 + 1);
    push_str(&mut t, "] ");
    push_str(&mut t, glyph_name);
    push_span(&mut out, string_of(&t), RowTone::Raw);
    proof {
        assert(row_view(out@) =~= composition_child(overridden, codepoint@, row as nat, col as nat, glyph_name@));
    }
    out
}

pub open spec fn value_text(v: Option<u8>) -> Seq<char> {
    match v {
        Some(x) => decimal(x as nat),
        None => "-"@,
    }
}

pub open spec fn button_tone(focused: bool) -> RowTone {
    if focused {
        RowTone::ButtonFocused
    } else {
        RowTone::Button
    }
}

/// The value buttons above the preview: threshold always, fps and invert
/// when the row has them; `focused` is the control the preview pane's
/// focus is on, and a button shows it when the row offers that control.
pub open spec fn edit_line(
    supports_threshold: bool,
    supports_fps: bool,
    supports_invert: bool,
    threshold: Option<u8>,
    fps: Option<u8>,
    invert: Option<bool>,
    focused: Option<crate::model::GlyphPreviewControl>,
) -> Seq<(Seq<char>, RowTone)> {
    seq![
        ("  Edit "@, RowTone::Raw),
        (
            " Threshold: "@ + value_text(threshold) + " "@,
            button_tone(supports_threshold && focused == Some(crate::model::GlyphPreviewControl::Threshold)),
        ),
    ] + (if supports_fps {
        seq![
            (" "@, RowTone::Raw),
            (" FPS: "@ + value_text(fps) + " "@, button_tone(focused == Some(crate::model::GlyphPreviewControl::Fps))),
        ]
    } else {
        Seq::empty()
    }) + (if supports_invert {
        seq![
            (" "@, RowTone::Raw),
            (
                " Invert: "@ + match invert {
                    Some(true) => "on"@,
                    Some(false) => "off"@,
                    None => "-"@,
                } + " "@,
                button_tone(focused == Some(crate::model::GlyphPreviewControl::Invert)),
            ),
        ]
    } else {
        Seq::empty()
    })
}

fn push_value(out: &mut Vec<char>, v: Option<u8>)
    ensures
        final(out)@ == old(out)@ + value_text(v),
{
    match v {
        Some(x) => push_decimal(out, x as u64),
        None => push_str(out, "-"),
    }
}

/// The value buttons above the preview.  A button has the focus when the
/// preview pane has it (`focused`) on that control and the row offers it.
pub fn preview_edit_line(
    supports_threshold: bool,
    supports_fps: bool,
    supports_invert: bool,
    threshold: Option<u8>,
    fps: Option<u8>,
    invert: Option<bool>,
    focused: Option<crate::model::GlyphPreviewControl>,
) -> (r: Vec<RowSpan>)
    ensures
        row_view(r@) == edit_line(supports_threshold, supports_fps, supports_invert, threshold, fps, invert, focused),
{
    let mut out: Vec<RowSpan> = Vec::new();
    push_span(&mut out, literal("  Edit "), RowTone::Raw);
    let mut t: Vec<char> = Vec::new();
    push_str(&mut t, " Threshold: ");
    push_value(&mut t, threshold);
    push_str(&mut t, " ");
    let on_threshold = match focused {
        Some(crate::model::GlyphPreviewControl::Threshold) => supports_threshold,
        _ => false,
    };
    push_span(&mut out, string_of(&t), if on_threshold { RowTone::ButtonFocused } else { RowTone::Button });
    if supports_fps {
        push_span(&mut out, literal(" "), RowTone::Raw);
        let mut f: Vec<char> = Vec::new();
        push_str(&mut f, " FPS: ");
        push_value(&mut f, fps);
        push_str(&mut f, " ");
        let on_fps = match focused {
            Some(crate::model::GlyphPreviewControl::Fps) => true,
            _ => false,
        };
        push_span(&mut out, string_of(&f), if on_fps { RowTone::ButtonFocused } else { RowTone::Button });
    }
    if supports_invert {
        push_span(&mut out, literal(" "), RowTone::Raw);
        let mut v: Vec<char> = Vec::new();
        push_str(&mut v, " Invert: ");
        match invert {
            Some(true) => push_str(&mut v, "on"),
            Some(false) => push_str(&mut v, "off"),
            None => push_str(&mut v, "-"),
        }
        push_str(&mut v, " ");
        let on_invert = match focused {
            Some(crate::model::GlyphPreviewControl::Invert) => true,
            _ => false,
        };
        push_span(&mut out, string_of(&v), if on_invert { RowTone::ButtonFocused } else { RowTone::Button });
    }
    proof {
        assert(row_view(out@) =~= edit_line(supports_threshold, supports_fps, supports_invert, threshold, fps, invert, focused));
    }
    out
}

} // verus!
