//! The text of the Home panel: the project rows, the counters and labels
//! of the current project card, and how its buttons are drawn.
use vstd::prelude::*;
use crate::home_panel::HomeLauncherFocus;
use crate::text::{decimal, push_decimal, push_str, string_of};

verus! {

/// How a piece of Home panel text is drawn.
#[derive(Debug, Clone, Copy, PartialEq, Eq, Structural)]
pub enum WelcomeTone {
    /// White.
    Plain,
    /// The muted colour.
    Muted,
    /// The accent colour, bold.
    Accent,
    /// Black on the accent colour, bold: the selected row.
    Selected,
    /// White, bold.
    Strong,
    /// Yellow, bold.
    Warning,
    /// Yellow.
    Notice,
    /// Black on yellow, bold: a name being typed.
    Field,
}

/// A piece of a Home panel line.
#[derive(Debug, Clone)]
pub struct WelcomeSpan {
    pub text: String,
    pub tone: WelcomeTone,
}

pub open spec fn spans_view(v: Seq<WelcomeSpan>) -> Seq<(Seq<char>, WelcomeTone)> {
    Seq::new(v.len(), |i: int| (v[i].text@, v[i].tone))
}

/// The row of a project in the project list.  `renaming` holds the name
/// field (already laid out) when the project is being renamed, `switching`
/// tells whether the project is being switched to (with the spinner frame,
/// when there is one), `warning` is the manifest's warning and
/// `verbose_path` the manifest path when paths are shown.
pub open spec fn project_row(
    selected: bool,
    active: bool,
    renaming: Option<Seq<char>>,
    font_name: Seq<char>,
    switching: Option<Option<Seq<char>>>,
    warning: Option<Seq<char>>,
    verbose_path: Option<Seq<char>>,
) -> Seq<(Seq<char>, WelcomeTone)> {
    let lead = seq![
        (if selected { "> "@ } else { "  "@ }, if selected { WelcomeTone::Selected } else { WelcomeTone::Muted }),
        (
            "["@ + (if active { "active"@ } else { "found "@ }) + "] "@,
            if selected {
                WelcomeTone::Selected
            } else if active {
                WelcomeTone::Accent
            } else {
                WelcomeTone::Muted
            },
        ),
    ];
    let body = match renaming {
        Some(field) => seq![(field, WelcomeTone::Field), (" [renaming...]"@, WelcomeTone::Warning)],
        None => {
            let name = seq![
                (
                    font_name,
                    if selected {
                        WelcomeTone::Selected
                    } else if active {
                        WelcomeTone::Strong
                    } else {
                        WelcomeTone::Plain
                    },
                ),
            ];
            let tail = match switching {
                Some(spinner) => match spinner {
                    Some(frame) => seq![("  "@ + frame, WelcomeTone::Warning), (" loading..."@, WelcomeTone::Notice)],
                    None => seq![(" loading..."@, WelcomeTone::Notice)],
                },
                None => match warning {
                    Some(w) => seq![("  "@ + w, WelcomeTone::Warning)],
                    None => Seq::empty(),
                },
            };
            name + tail
        },
    };
    let path_tone = if selected { WelcomeTone::Selected } else { WelcomeTone::Muted };
    let path = match (verbose_path, renaming) {
        (Some(p), None) => seq![("  "@, path_tone), (p, path_tone)],
        _ => Seq::empty(),
    };
    lead + body + path
}

fn span(text: String, tone: WelcomeTone) -> (r: WelcomeSpan)
    ensures
        r.text@ == text@,
        r.tone == tone,
{
    WelcomeSpan { text, tone }
}

fn literal(lit: &str) -> (r: String)
    ensures
        r@ == lit@,
{
    let mut out: Vec<char> = Vec::new();
    push_str(&mut out, lit);
    string_of(&out)
}

fn joined(a: &str, b: &str, c: &str) -> (r: String)
    ensures
        r@ == a@ + b@ + c@,
{
    let mut out: Vec<char> = Vec::new();
    push_str(&mut out, a);
    push_str(&mut out, b);
    push_str(&mut out, c);
    string_of(&out)
}

fn push_span(out: &mut Vec<WelcomeSpan>, text: String, tone: WelcomeTone)
    ensures
        spans_view(final(out)@) == spans_view(old(out)@).push((text@, tone)),
{
    let ghost before = spans_view(out@);
    out.push(span(text, tone));
    proof {
        assert(spans_view(out@) =~= before.push((text@, tone)));
    }
}

/// The spans of a project row.
pub fn project_row_spans(
    selected: bool,
    active: bool,
    renaming: Option<&str>,
    font_name: &str,
    switching: Option<Option<&str>>,
    warning: Option<&str>,
    verbose_path: Option<&str>,
) -> (r: Vec<WelcomeSpan>)
    ensures
        spans_view(r@) == project_row(
            selected,
            active,
            match renaming {
                Some(f) => Some(f@),
                None => None,
            },
            font_name@,
            match switching {
                Some(s) => Some(
                    match s {
                        Some(f) => Some(f@),
                        None => None,
                    },
                ),
                None => None,
            },
            match warning {
                Some(w) => Some(w@),
                None => None,
            },
            match verbose_path {
                Some(p) => Some(p@),
                None => None,
            },
        ),
{
    let mut out: Vec<WelcomeSpan> = Vec::new();
    let lead_tone = if selected { WelcomeTone::Selected } else { WelcomeTone::Muted };
    push_span(&mut out, literal(if selected { "> " } else { "  " }), lead_tone);
    let marker_tone = if selected {
        WelcomeTone::Selected
    } else if active {
        WelcomeTone::Accent
    } else {
        WelcomeTone::Muted
    };
    push_span(&mut out, joined("[", if active { "active" } else { "found " }, "] "), marker_tone);
    match renaming {
        Some(field) => {
            push_span(&mut out, literal(field), WelcomeTone::Field);
            push_span(&mut out, literal(" [renaming...]"), WelcomeTone::Warning);
        },
        None => {
            let name_tone = if selected {
                WelcomeTone::Selected
            } else if active {
                WelcomeTone::Strong
            } else {
                WelcomeTone::Plain
            };
            push_span(&mut out, literal(font_name), name_tone);
            match switching {
                Some(spinner) => {
                    if let Some(frame) = spinner {
                        let mut t: Vec<char> = Vec::new();
                        push_str(&mut t, "  ");
                        push_str(&mut t, frame);
                        push_span(&mut out, string_of(&t), WelcomeTone::Warning);
                    }
                    push_span(&mut out, literal(" loading..."), WelcomeTone::Notice);
                },
                None => {
                    if let Some(w) = warning {
                        let mut t: Vec<char> = Vec::new();
                        push_str(&mut t, "  ");
                        push_str(&mut t, w);
                        push_span(&mut out, string_of(&t), WelcomeTone::Warning);
                    }
                },
            }
        },
    }
    if renaming.is_none() {
        if let Some(p) = verbose_path {
            push_span(&mut out, literal("  "), lead_tone);
            push_span(&mut out, literal(p), lead_tone);
        }
    }
    proof {
        let r = match renaming {
            Some(f) => Some(f@),
            None => None::<Seq<char>>,
        };
        let spec_row = project_row(
            selected,
            active,
            r,
            font_name@,
            match switching {
                Some(s) => Some(
                    match s {
                        Some(f) => Some(f@),
                        None => None,
                    },
                ),
                None => None,
            },
            match warning {
                Some(w) => Some(w@),
                None => None,
            },
            match verbose_path {
                Some(p) => Some(p@),
                None => None,
            },
        );
        assert(spans_view(out@) =~= spec_row);
    }
    out
}

/// The headline of the installed fonts card.
pub open spec fn fonts_found_line(count: nat) -> Seq<char> {
    "Found "@ + decimal(count) + " installed petiglyph font"@ + (if count == 1 { ""@ } else { "s"@ }) + "."@
}

pub fn installed_fonts_found_line(count: usize) -> (r: String)
    ensures
        r@ == fonts_found_line(count as nat),
{
    let mut out: Vec<char> = Vec::new();
    push_str(&mut out, "Found ");
    push_decimal(&mut out, count as u64);
    push_str(&mut out, " installed petiglyph font");
    let ghost mid = out@;
    if count != 1 {
        push_str(&mut out, "s");
    } else {
        proof {
            reveal_strlit("");
            assert(mid + ""@ =~= mid);
        }
    }
    push_str(&mut out, ".");
    string_of(&out)
}

/// The glyph count of the current project card: the sources counted on
/// disk when known, else the glyphs loaded; `n/a` with no project open.
pub open spec fn glyph_count_text(tools_active: bool, live_count: Option<usize>, loaded: nat) -> Seq<char> {
    if tools_active {
        match live_count {
            Some(n) => decimal(n as nat),
            None => decimal(loaded),
        }
    } else {
        "n/a"@
    }
}

pub fn glyph_count_label(tools_active: bool, live_count: Option<usize>, loaded: usize) -> (r: String)
    ensures
        r@ == "Glyphs: "@ + glyph_count_text(tools_active, live_count, loaded as nat),
{
    let mut out: Vec<char> = Vec::new();
    push_str(&mut out, "Glyphs: ");
    if tools_active {
        match live_count {
            Some(n) => push_decimal(&mut out, n as u64),
            None => push_decimal(&mut out, loaded as u64),
        }
    } else {
        push_str(&mut out, "n/a");
    }
    string_of(&out)
}

/// The card asks for images when a project is open, has no font built yet
/// and no glyphs.
pub fn show_add_images_warning(tools_active: bool, ttf_built: bool, bdf_built: bool, glyph_count: usize) -> (r: bool)
    ensures
        r == (tools_active && !ttf_built && !bdf_built && glyph_count == 0),
{
    tools_active && !ttf_built && !bdf_built && glyph_count == 0
}

/// The label of the install button: the spinner and `Installing...` while
/// an install runs, else the action's name.
pub fn install_button_label(installing_spinner: Option<&str>, action_name: &str) -> (r: String)
    ensures
        r@ == match installing_spinner {
            Some(s) => " "@ + s@ + " Installing... "@,
            None => " "@ + action_name@ + " "@,
        },
{
    match installing_spinner {
        Some(s) => joined(" ", s, " Installing... "),
        None => joined(" ", action_name, " "),
    }
}

/// How a button of the current project card is drawn.
#[derive(Debug, Clone, Copy, PartialEq, Eq, Structural)]
pub enum CardButtonLook {
    /// Dark grey on black, dimmed.
    Disabled,
    /// The colour of the running task.
    Task,
    /// Black on the accent colour, bold.
    Focused,
    /// White on dark grey, bold.
    Idle,
    /// White on red, bold.
    DangerFocused,
    /// Light red on dark grey, bold.
    Danger,
}

/// The install button: disabled with no project (and nothing running),
/// in the task's colour while an install runs, disabled while another
/// task runs, else focused or idle.
pub fn install_button_look(has_active_project: bool, busy: bool, installing: bool, focused: bool) -> (r: CardButtonLook)
    ensures
        r == (if !has_active_project && !busy {
            CardButtonLook::Disabled
        } else if installing {
            CardButtonLook::Task
        } else if busy {
            CardButtonLook::Disabled
        } else if focused {
            CardButtonLook::Focused
        } else {
            CardButtonLook::Idle
        }),
{
    if !has_active_project && !busy {
        CardButtonLook::Disabled
    } else if installing {
        CardButtonLook::Task
    } else if busy {
        CardButtonLook::Disabled
    } else if focused {
        CardButtonLook::Focused
    } else {
        CardButtonLook::Idle
    }
}

/// The delete button: disabled when the project cannot be deleted or a
/// task runs, else red when focused and light red otherwise.
pub fn delete_button_look(can_delete: bool, busy: bool, focused: bool) -> (r: CardButtonLook)
    ensures
        r == (if !can_delete || busy {
            CardButtonLook::Disabled
        } else if focused {
            CardButtonLook::DangerFocused
        } else {
            CardButtonLook::Danger
        }),
{
    if !can_delete || busy {
        CardButtonLook::Disabled
    } else if focused {
        CardButtonLook::DangerFocused
    } else {
        CardButtonLook::Danger
    }
}

/// The verbose-paths switch: its label, and whether it is focused (black
/// on the accent colour), on (black on green) or off (dimmed).
pub fn verbose_switch_label(enabled: bool) -> (r: &'static str)
    ensures
        r@ == (if enabled { " Verbose: ON "@ } else { " Verbose: OFF "@ }),
{
    if enabled {
        " Verbose: ON "
    } else {
        " Verbose: OFF "
    }
}

/// The banner shown after switching projects.
pub fn switch_notice_text(from_label: &str, to_label: &str) -> (r: String)
    ensures
        r@ == " Switched project: "@ + from_label@ + " -> "@ + to_label@ + " "@,
{
    let mut out: Vec<char> = Vec::new();
    push_str(&mut out, " Switched project: ");
    push_str(&mut out, from_label);
    push_str(&mut out, " -> ");
    push_str(&mut out, to_label);
    push_str(&mut out, " ");
    string_of(&out)
}


/// The four buttons of the creation launcher, in reading order: their
/// captions, and whether each is lit (it has the launcher's focus and the
/// launcher has the panel's).
pub open spec fn launcher_buttons(focus: HomeLauncherFocus, launcher_focused: bool) -> Seq<(Seq<char>, bool)> {
    seq![
        (" Create glyph "@, launcher_focused && focus == HomeLauncherFocus::CreateGlyph),
        (" Create grid "@, launcher_focused && focus == HomeLauncherFocus::CreateGrid),
        (" Create animated glyph "@, launcher_focused && focus == HomeLauncherFocus::CreateAnimatedGlyph),
        (" Create animated grid glyph "@, launcher_focused && focus == HomeLauncherFocus::CreateAnimatedGridGlyph),
    ]
}

pub fn creation_launcher_buttons(focus: HomeLauncherFocus, launcher_focused: bool) -> (r: Vec<(String, bool)>)
    ensures
        Seq::new(r@.len(), |i: int| (r@[i].0@, r@[i].1)) == launcher_buttons(focus, launcher_focused),
{
    let mut out: Vec<(String, bool)> = Vec::new();
    out.push((literal(" Create glyph "), launcher_focused && focus == HomeLauncherFocus::CreateGlyph));
    out.push((literal(" Create grid "), launcher_focused && focus == HomeLauncherFocus::CreateGrid));
    out.push((literal(" Create animated glyph "), launcher_focused && focus == HomeLauncherFocus::CreateAnimatedGlyph));
    out.push((literal(" Create animated grid glyph "), launcher_focused && focus == HomeLauncherFocus::CreateAnimatedGridGlyph));
    proof {
        assert(Seq::new(out@.len(), |i: int| (out@[i].0@, out@[i].1)) =~= launcher_buttons(focus, launcher_focused));
    }
    out
}

} // verus!
