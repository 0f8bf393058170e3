//! The screens shown instead of the UI (while it loads, when the terminal
//! is too small), the blank frame of a full repaint, and the look of the
//! Home panel's buttons.
use vstd::prelude::*;
use crate::layout::spaces;
use crate::shell::{min16, sub16, Rect, TUI_MIN_HEIGHT, TUI_MIN_WIDTH};
use crate::text::{decimal, push_decimal, push_str, string_of};

verus! {

/// How a line of a message screen is drawn.
#[derive(Debug, Clone, Copy, PartialEq, Eq, Structural)]
pub enum MessageTone {
    Plain,
    /// Bold yellow.
    Warning,
    /// The muted colour.
    Muted,
}

pub open spec fn line_views(v: Seq<(String, MessageTone)>) -> Seq<(Seq<char>, MessageTone)> {
    Seq::new(v.len(), |i: int| (v[i].0@, v[i].1))
}

/// The screen shown when the terminal is smaller than the layout needs.
pub open spec fn too_small_text(width: u16, height: u16) -> Seq<(Seq<char>, MessageTone)> {
    seq![
        (Seq::empty(), MessageTone::Plain),
        ("Terminal too small"@, MessageTone::Warning),
        (Seq::empty(), MessageTone::Plain),
        ("Need at least "@ + decimal(TUI_MIN_WIDTH as nat) + seq!['x'] + decimal(TUI_MIN_HEIGHT as nat) + " (W x H)"@, MessageTone::Plain),
        ("Current: "@ + decimal(width as nat) + seq!['x'] + decimal(height as nat), MessageTone::Plain),
        (Seq::empty(), MessageTone::Plain),
        ("Resize terminal to continue."@, MessageTone::Muted),
        ("Press q or Esc to quit."@, MessageTone::Muted),
    ]
}

fn size_text(prefix: &str, width: u16, height: u16, suffix: &str) -> (r: String)
    ensures
        r@ == prefix@ + decimal(width as nat) + seq!['x'] + decimal(height as nat) + suffix@,
{
    let mut out: Vec<char> = Vec::new();
    push_str(&mut out, prefix);
    push_decimal(&mut out, width as u64);
    out.push('x');
    push_decimal(&mut out, height as u64);
    push_str(&mut out, suffix);
    proof {
        assert(out@ =~= prefix@ + decimal(width as nat) + seq!['x'] + decimal(height as nat) + suffix@);
    }
    string_of(&out)
}

pub fn terminal_too_small_lines(area: Rect) -> (r: Vec<(String, MessageTone)>)
    ensures
        line_views(r@) == too_small_text(area.width, area.height),
{
    let need = size_text("Need at least ", TUI_MIN_WIDTH, TUI_MIN_HEIGHT, " (W x H)");
    let current = size_text("Current: ", area.width, area.height, "");
    let r = vec![
        (String::new(), MessageTone::Plain),
        ("Terminal too small".to_owned(), MessageTone::Warning),
        (String::new(), MessageTone::Plain),
        (need, MessageTone::Plain),
        (current, MessageTone::Plain),
        (String::new(), MessageTone::Plain),
        ("Resize terminal to continue.".to_owned(), MessageTone::Muted),
        ("Press q or Esc to quit.".to_owned(), MessageTone::Muted),
    ];
    proof {
        assert(""@ =~= Seq::<char>::empty()) by {
            reveal_strlit("");
        }
        assert(line_views(r@) =~= too_small_text(area.width, area.height));
    }
    r
}

/// One second, in nanoseconds.
pub const ONE_SECOND_NS: u64 = 1_000_000_000;

/// The spinner of the loading screen: `|`, `/`, `-`, `\` in turn.
pub open spec fn loading_spinner(frame: nat) -> char {
    let k = frame % 4;
    if k == 0 {
        '|'
    } else if k == 1 {
        '/'
    } else if k == 2 {
        '-'
    } else {
        '\\'
    }
}

/// The status line of the loading screen: the spinner, and after the
/// first second a word on what is being loaded.
pub open spec fn loading_line(frame: nat, elapsed_ns: nat) -> Seq<char> {
    seq![loading_spinner(frame), ' '] + if elapsed_ns >= ONE_SECOND_NS {
        "Loading projects, installed fonts, and glyphs..."@
    } else {
        "Loading..."@
    }
}

pub fn startup_loading_line(spinner_frame: usize, elapsed_ns: u64) -> (r: String)
    ensures
        r@ == loading_line(spinner_frame as nat, elapsed_ns as nat),
{
    let k = spinner_frame % 4;
    let spinner = if k == 0 {
        '|'
    } else if k == 1 {
        '/'
    } else if k == 2 {
        '-'
    } else {
        '\\'
    };
    let mut out: Vec<char> = Vec::new();
    out.push(spinner);
    out.push(' ');
    if elapsed_ns >= ONE_SECOND_NS {
        push_str(&mut out, "Loading projects, installed fonts, and glyphs...");
    } else {
        push_str(&mut out, "Loading...");
    }
    proof {
        assert(out@ =~= loading_line(spinner_frame as nat, elapsed_ns as nat));
    }
    string_of(&out)
}

/// The box of the loading screen: at most 54 x 7 cells, centred.
pub open spec fn loading_rect(area: Rect) -> Rect {
    let w = min16(area.width, 54);
    let h = min16(area.height, 7);
    Rect {
        x: (area.x + sub16(area.width, w) / 2) as u16,
        y: (area.y + sub16(area.height, h) / 2) as u16,
        width: w,
        height: h,
    }
}

pub fn startup_loading_rect(area: Rect) -> (r: Rect)
    requires
        area.fits(),
    ensures
        r == loading_rect(area),
        r.fits(),
{
    let w = if area.width < 54 { area.width } else { 54 };
    let h = if area.height < 7 { area.height } else { 7 };
    let x = area.x + (area.width - w) / 2;
    let y = area.y + (area.height - h) / 2;
    Rect::new(x, y, w, h)
}

/// The blank lines of a full repaint: `area.height` lines of
/// `area.width` spaces.
pub fn full_repaint_lines(area: Rect) -> (r: Vec<String>)
    ensures
        r@.len() == area.height,
        forall|i: int| 0 <= i < r@.len() ==> #[trigger] r@[i]@ == spaces(area.width as nat),
{
    let mut blank: Vec<char> = Vec::new();
    let mut k: u16 = 0;
    while k < area.width
        invariant
            k <= area.width,
            blank@ == spaces(k as nat),
        decreases area.width - k,
    {
        blank.push(' ');
        proof {
            assert(blank@ =~= spaces((k + 1) as nat));
        }
        k = k + 1;
    }
    let line = string_of(&blank);
    let mut out: Vec<String> = Vec::new();
    let mut i: u16 = 0;
    while i < area.height
        invariant
            i <= area.height,
            line@ == spaces(area.width as nat),
            out@.len() == i,
            forall|j: int| 0 <= j < out@.len() ==> #[trigger] out@[j]@ == spaces(area.width as nat),
        decreases area.height - i,
    {
        out.push(line.clone());
        i = i + 1;
    }
    out
}

/// A colour of the Home panel's buttons.
#[derive(Debug, Clone, Copy, PartialEq, Eq, Structural)]
pub enum PanelColor {
    Black,
    White,
    DarkGray,
    /// The accent colour of the UI.
    Accent,
}

/// How a button is drawn: bold text of one colour on another.
#[derive(Debug, Clone, Copy, PartialEq, Eq, Structural)]
pub struct ButtonLook {
    pub fg: PanelColor,
    pub bg: PanelColor,
    pub bold: bool,
}

/// The focused button is black on the accent colour, the others white on
/// dark grey; both bold.
pub fn home_panel_button_look(selected: bool) -> (r: ButtonLook)
    ensures
        r == (if selected {
            ButtonLook { fg: PanelColor::Black, bg: PanelColor::Accent, bold: true }
        } else {
            ButtonLook { fg: PanelColor::White, bg: PanelColor::DarkGray, bold: true }
        }),
{
    if selected {
        ButtonLook { fg: PanelColor::Black, bg: PanelColor::Accent, bold: true }
    } else {
        ButtonLook { fg: PanelColor::White, bg: PanelColor::DarkGray, bold: true }
    }
}

} // verus!
