//! The animation panel of the Glyphs view: what it says at each step of
//! the animation tool, and the settings of the animation being configured.
use vstd::prelude::*;
use crate::codepoints::views;
use crate::config_keys::{AnimationConfig, AnimationConfigFocus};
use crate::controls::{bleed_label, bleed_level_label};
use crate::glyph_tools::{AnimationToolStep, AnimationTypeChoiceFocus};
use crate::layout::{center_label, centered, dashed_pattern, dashes};
use crate::model::AnimationType;
use crate::text::{decimal, push_decimal, push_str, string_of, chars_of, push_all};

verus! {

pub open spec fn draft_line(frames: nat) -> Seq<char> {
    "Current draft frames: "@ + decimal(frames)
}

/// The lines of the panel for a step of the animation tool; `spinner` is
/// the spinner frame while frames are being imported.  The drop box (its
/// three lines after the two-space indent) is drawn in the accent colour.
pub open spec fn tool_lines(step: AnimationToolStep, spinner: Option<Seq<char>>, draft_frames: nat) -> Seq<Seq<char>> {
    match step {
        AnimationToolStep::Off => Seq::empty(),
        AnimationToolStep::ChooseType(focus) => seq![
            "Choose animation type"@,
            Seq::empty(),
            "  "@ + (if focus == AnimationTypeChoiceFocus::Standard { "[Standard]"@ } else { " Standard "@ }) + "   "@ + (
            if focus == AnimationTypeChoiceFocus::Grid {
                "[Grid]"@
            } else {
                " Grid "@
            }),
            Seq::empty(),
            "Left/Right to choose, Enter to continue, q/Esc to cancel."@,
        ],
        AnimationToolStep::ImportFrames => seq!["Importing animation frames"@, Seq::empty()] + match spinner {
            Some(s) => seq![s + " Loading animation frames..."@],
            None => seq![
                "  ╭"@ + dashes(24) + "╮"@,
                "  │"@ + centered("DRAG/PASTE MEDIA"@, 24) + "│"@,
                "  ╰"@ + dashes(24) + "╯"@,
                "Press Enter when done, q/Esc to cancel."@,
            ],
        } + seq![draft_line(draft_frames)],
        AnimationToolStep::SelectFrames(t) => seq![
            "Selecting "@ + (if t == AnimationType::Grid { "Grid"@ } else { "Standard"@ }) + " animation frames"@,
            Seq::empty(),
            "Space toggles selected imported glyph row as frame."@,
            "Enter to configure, q/Esc to cancel."@,
            draft_line(draft_frames),
        ],
    }
}

fn text(lit: &str) -> (r: String)
    ensures
        r@ == lit@,
{
    let mut out: Vec<char> = Vec::new();
    push_str(&mut out, lit);
    string_of(&out)
}

fn push_line(out: &mut Vec<String>, line: String)
    ensures
        views(final(out)@) == views(old(out)@).push(line@),
{
    let ghost before = views(out@);
    out.push(line);
    proof {
        assert(views(out@) =~= before.push(line@));
    }
}

fn draft_text(frames: usize) -> (r: String)
    ensures
        r@ == draft_line(frames as nat),
{
    let mut out: Vec<char> = Vec::new();
    push_str(&mut out, "Current draft frames: ");
    push_decimal(&mut out, frames as u64);
    string_of(&out)
}

fn framed(left: &str, middle: &String, right: &str) -> (r: String)
    ensures
        r@ == left@ + middle@ + right@,
{
    let mut out: Vec<char> = Vec::new();
    push_str(&mut out, left);
    let m = chars_of(middle.as_str());
    push_all(&mut out, &m);
    push_str(&mut out, right);
    string_of(&out)
}

/// The panel's lines for a step of the animation tool.
pub fn animation_tool_lines(step: AnimationToolStep, spinner: Option<&str>, draft_frames: usize) -> (r: Vec<String>)
    ensures
        views(r@) == tool_lines(
            step,
            match spinner {
                Some(s) => Some(s@),
                None => None,
            },
            draft_frames as nat,
        ),
{
    let mut out: Vec<String> = Vec::new();
    match step {
        AnimationToolStep::Off => {},
        AnimationToolStep::ChooseType(focus) => {
            push_line(&mut out, text("Choose animation type"));
            push_line(&mut out, String::new());
            let mut choice: Vec<char> = Vec::new();
            push_str(&mut choice, "  ");
            push_str(&mut choice, if focus == AnimationTypeChoiceFocus::Standard { "[Standard]" } else { " Standard " });
            push_str(&mut choice, "   ");
            push_str(&mut choice, if focus == AnimationTypeChoiceFocus::Grid { "[Grid]" } else { " Grid " });
            push_line(&mut out, string_of(&choice));
            push_line(&mut out, String::new());
            push_line(&mut out, text("Left/Right to choose, Enter to continue, q/Esc to cancel."));
        },
        AnimationToolStep::ImportFrames => {
            push_line(&mut out, text("Importing animation frames"));
            push_line(&mut out, String::new());
            match spinner {
                Some(s) => {
                    let mut l: Vec<char> = Vec::new();
                    push_str(&mut l, s);
                    push_str(&mut l, " Loading animation frames...");
                    push_line(&mut out, string_of(&l));
                },
                None => {
                    let dash = dashed_pattern(24);
                    let label = center_label("DRAG/PASTE MEDIA", 24);
                    push_line(&mut out, framed("  ╭", &dash, "╮"));
                    push_line(&mut out, framed("  │", &label, "│"));
                    push_line(&mut out, framed("  ╰", &dash, "╯"));
                    push_line(&mut out, text("Press Enter when done, q/Esc to cancel."));
                },
            }
            push_line(&mut out, draft_text(draft_frames));
        },
        AnimationToolStep::SelectFrames(t) => {
            let mut title: Vec<char> = Vec::new();
            push_str(&mut title, "Selecting ");
            push_str(&mut title, if t == AnimationType::Grid { "Grid" } else { "Standard" });
            push_str(&mut title, " animation frames");
            push_line(&mut out, string_of(&title));
            push_line(&mut out, String::new());
            push_line(&mut out, text("Space toggles selected imported glyph row as frame."));
            push_line(&mut out, text("Enter to configure, q/Esc to cancel."));
            push_line(&mut out, draft_text(draft_frames));
        },
    }
    proof {
        assert(views(out@) =~= tool_lines(
            step,
            match spinner {
                Some(s) => Some(s@),
                None => None,
            },
            draft_frames as nat,
        ));
    }
    out
}

pub open spec fn bracketed(lit: bool, label: Seq<char>) -> Seq<char> {
    if lit {
        "["@ + label + "]"@
    } else {
        label
    }
}

/// The panel's lines for the animation being configured: its type, name
/// and settings (grid settings for grid animations), the number of frames
/// and the create line; the focused setting is in brackets.
pub open spec fn config_lines(c: AnimationConfig) -> Seq<Seq<char>> {
    let grid = c.animation_type == AnimationType::Grid;
    seq![
        "Configure "@ + (if grid { "grid"@ } else { "standard"@ }) + " animation"@,
        Seq::empty(),
        "Name: "@ + c.animation_name@,
        bracketed(c.focus == AnimationConfigFocus::Fps, "FPS: "@ + decimal(c.fps as nat)),
    ] + (if grid {
        seq![
            bracketed(c.focus == AnimationConfigFocus::Rows, "Rows: "@ + decimal(c.rows as nat)),
            bracketed(c.focus == AnimationConfigFocus::Cols, "Cols: "@ + decimal(c.cols as nat)),
            bracketed(c.focus == AnimationConfigFocus::HorizontalBleed, "L/R bleed: "@ + bleed_label(c.horizontal_bleed)),
            bracketed(c.focus == AnimationConfigFocus::VerticalBleed, "T/B bleed: "@ + bleed_label(c.vertical_bleed)),
        ]
    } else {
        Seq::empty()
    }) + seq![
        "Frames: "@ + decimal(c.selected_frames@.len()),
        bracketed(c.focus == AnimationConfigFocus::Create, "Create animation"@),
        "Left/Right move focus, Up/Down adjust, Enter creates, q/Esc cancels."@,
    ]
}

fn bracket(lit: bool, label: Vec<char>) -> (r: String)
    ensures
        r@ == bracketed(lit, label@),
{
    if lit {
        let mut out: Vec<char> = Vec::new();
        out.push('[');
        push_all(&mut out, &label);
        out.push(']');
        proof {
            reveal_strlit("[");
            reveal_strlit("]");
            assert(out@ =~= "["@ + label@ + "]"@);
        }
        string_of(&out)
    } else {
        string_of(&label)
    }
}

fn labelled_number(lit: &str, n: u64) -> (r: Vec<char>)
    ensures
        r@ == lit@ + decimal(n as nat),
{
    let mut out: Vec<char> = Vec::new();
    push_str(&mut out, lit);
    push_decimal(&mut out, n);
    out
}

fn labelled_text(lit: &str, t: &str) -> (r: Vec<char>)
    ensures
        r@ == lit@ + t@,
{
    let mut out: Vec<char> = Vec::new();
    push_str(&mut out, lit);
    push_str(&mut out, t);
    out
}

/// The panel's lines for the animation being configured.
pub fn animation_config_lines(c: &AnimationConfig) -> (r: Vec<String>)
    ensures
        views(r@) == config_lines(*c),
{
    let grid = c.animation_type == AnimationType::Grid;
    let mut out: Vec<String> = Vec::new();
    let mut title: Vec<char> = Vec::new();
    push_str(&mut title, "Configure ");
    push_str(&mut title, if grid { "grid" } else { "standard" });
    push_str(&mut title, " animation");
    push_line(&mut out, string_of(&title));
    push_line(&mut out, String::new());
    push_line(&mut out, string_of(&labelled_text("Name: ", c.animation_name.as_str())));
    push_line(&mut out, bracket(c.focus == AnimationConfigFocus::Fps, labelled_number("FPS: ", c.fps as u64)));
    if grid {
        push_line(&mut out, bracket(c.focus == AnimationConfigFocus::Rows, labelled_number("Rows: ", c.rows as u64)));
        push_line(&mut out, bracket(c.focus == AnimationConfigFocus::Cols, labelled_number("Cols: ", c.cols as u64)));
        push_line(
            &mut out,
            bracket(
                c.focus == AnimationConfigFocus::HorizontalBleed,
                labelled_text("L/R bleed: ", bleed_level_label(c.horizontal_bleed)),
            ),
        );
        push_line(
            &mut out,
            bracket(
                c.focus == AnimationConfigFocus::VerticalBleed,
                labelled_text("T/B bleed: ", bleed_level_label(c.vertical_bleed)),
            ),
        );
    }
    push_line(&mut out, string_of(&labelled_number("Frames: ", c.selected_frames.len() as u64)));
    let mut create: Vec<char> = Vec::new();
    push_str(&mut create, "Create animation");
    push_line(&mut out, bracket(c.focus == AnimationConfigFocus::Create, create));
    push_line(&mut out, text("Left/Right move focus, Up/Down adjust, Enter creates, q/Esc cancels."));
    proof {
        assert(views(out@) =~= config_lines(*c));
    }
    out
}

} // verus!
