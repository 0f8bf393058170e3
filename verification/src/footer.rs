//! The header tabs and the footer line of the terminal UI: the key hints,
//! the status line, and the running font task.
use vstd::prelude::*;
use crate::key_routing::AppView;
use crate::shell::FontTaskKind;
use crate::text::{push_str, string_of};

verus! {

/// How a piece of the footer is drawn.
#[derive(Debug, Clone, Copy, PartialEq, Eq, Structural)]
pub enum FooterTone {
    /// A key name, in the accent colour.
    Key,
    /// The footer's muted colour.
    Plain,
    /// Light red: the status line, or a font being removed.
    Alert,
    /// Yellow: a font being installed.
    Busy,
}

#[derive(Debug, Clone)]
pub struct FooterSpan {
    pub text: String,
    pub tone: FooterTone,
}

pub open spec fn footer_view(v: Seq<FooterSpan>) -> Seq<(Seq<char>, FooterTone)> {
    Seq::new(v.len(), |i: int| (v[i].text@, v[i].tone))
}

/// The footer: Enter/Esc hints while text is typed or a deletion is being
/// confirmed, else the panel, navigation, action and quit keys of the
/// panel shown; then the status line and the font task, when there are.
pub open spec fn footer(
    typing: bool,
    view: AppView,
    status: Option<Seq<char>>,
    task: Option<(Seq<char>, bool)>,
) -> Seq<(Seq<char>, FooterTone)> {
    let keys = if typing {
        seq![
            (" Enter "@, FooterTone::Key),
            ("confirm  "@, FooterTone::Plain),
            (" Esc "@, FooterTone::Key),
            ("cancel"@, FooterTone::Plain),
        ]
    } else {
        seq![
            (" Tab "@, FooterTone::Key),
            ("panel  "@, FooterTone::Plain),
            (" ↑/↓ "@, FooterTone::Key),
            (if view == AppView::Welcome { "navigate  "@ } else { "glyph  "@ }, FooterTone::Plain),
            (" Enter "@, FooterTone::Key),
            (if view == AppView::Welcome { "action  "@ } else { "expand  "@ }, FooterTone::Plain),
            (" q "@, FooterTone::Key),
            ("quit"@, FooterTone::Plain),
        ]
    };
    let with_status = match status {
        Some(s) => keys + seq![(" | "@, FooterTone::Plain), (s, FooterTone::Alert)],
        None => keys,
    };
    match task {
        Some((label, removing)) => with_status + seq![
            (" | "@, FooterTone::Plain),
            (label, if removing { FooterTone::Alert } else { FooterTone::Busy }),
        ],
        None => with_status,
    }
}

fn literal(lit: &str) -> (r: String)
    ensures
        r@ == lit@,
{
    let mut out: Vec<char> = Vec::new();
    push_str(&mut out, lit);
    string_of(&out)
}

fn push_span(out: &mut Vec<FooterSpan>, text: String, tone: FooterTone)
    ensures
        footer_view(final(out)@) == footer_view(old(out)@).push((text@, tone)),
{
    let ghost before = footer_view(out@);
    out.push(FooterSpan { text, tone });
    proof {
        assert(footer_view(out@) =~= before.push((text@, tone)));
    }
}

/// The footer line; `task` is the spinner frame and kind of the running
/// font task, shown as the spinner and the task's label.
pub fn footer_spans(typing: bool, view: AppView, status: Option<&str>, task: Option<(&str, &FontTaskKind)>) -> (r: Vec<FooterSpan>)
    ensures
        footer_view(r@) == footer(
            typing,
            view,
            match status {
                Some(s) => Some(s@),
                None => None,
            },
            match task {
                Some((spinner, kind)) => Some(
                    (
                        spinner@ + " "@ + (if kind.removes() {
                            "removing font..."@
                        } else {
                            "installing font..."@
                        }),
                        kind.removes(),
                    ),
                ),
                None => None,
            },
        ),
{
    let mut out: Vec<FooterSpan> = Vec::new();
    if typing {
        push_span(&mut out, literal(" Enter "), FooterTone::Key);
        push_span(&mut out, literal("confirm  "), FooterTone::Plain);
        push_span(&mut out, literal(" Esc "), FooterTone::Key);
        push_span(&mut out, literal("cancel"), FooterTone::Plain);
    } else {
        let welcome = view == AppView::Welcome;
        push_span(&mut out, literal(" Tab "), FooterTone::Key);
        push_span(&mut out, literal("panel  "), FooterTone::Plain);
        push_span(&mut out, literal(" ↑/↓ "), FooterTone::Key);
        push_span(&mut out, literal(if welcome { "navigate  " } else { "glyph  " }), FooterTone::Plain);
        push_span(&mut out, literal(" Enter "), FooterTone::Key);
        push_span(&mut out, literal(if welcome { "action  " } else { "expand  " }), FooterTone::Plain);
        push_span(&mut out, literal(" q "), FooterTone::Key);
        push_span(&mut out, literal("quit"), FooterTone::Plain);
    }
    if let Some(s) = status {
        push_span(&mut out, literal(" | "), FooterTone::Plain);
        push_span(&mut out, literal(s), FooterTone::Alert);
    }
    if let Some((spinner, kind)) = task {
        push_span(&mut out, literal(" | "), FooterTone::Plain);
        let mut label: Vec<char> = Vec::new();
        push_str(&mut label, spinner);
        push_str(&mut label, " ");
        push_str(&mut label, kind.footer_label());
        let removing = kind.is_uninstall();
        push_span(&mut out, string_of(&label), if removing { FooterTone::Alert } else { FooterTone::Busy });
    }
    proof {
        assert(footer_view(out@) =~= footer(
            typing,
            view,
            match status {
                Some(s) => Some(s@),
                None => None,
            },
            match task {
                Some((spinner, kind)) => Some(
                    (
                        spinner@ + " "@ + (if kind.removes() {
                            "removing font..."@
                        } else {
                            "installing font..."@
                        }),
                        kind.removes(),
                    ),
                ),
                None => None,
            },
        ));
    }
    out
}

/// The tabs of the header and which one is selected.
pub fn header_tabs(view: AppView) -> (r: ([&'static str; 2], usize))
    ensures
        r.0[0]@ == " 1 Home "@,
        r.0[1]@ == " 2 Glyphs "@,
        r.1 == (if view == AppView::Welcome { 0usize } else { 1usize }),
{
    ([" 1 Home ", " 2 Glyphs "], if view == AppView::Welcome { 0 } else { 1 })
}

} // verus!
