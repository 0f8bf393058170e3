//! The text of the small popups: the delete-project confirmation and the
//! guidance shown after a first install, and the status line of a failed
//! project load.
use vstd::prelude::*;
use crate::codepoints::views;
use crate::config_keys::{DELETE_CONFIRM_CANCEL_INDEX, DELETE_CONFIRM_DELETE_INDEX};
use crate::text::{push_str, string_of};

verus! {

/// The question of the delete confirmation, naming the project's folder
/// (or `current project` when it has none).
pub open spec fn delete_question(project_dir_name: Option<Seq<char>>) -> Seq<char> {
    "Delete project `"@ + match project_dir_name {
        Some(n) => n,
        None => "current project"@,
    } + "`?"@
}

pub fn delete_confirmation_question(project_dir_name: Option<&str>) -> (r: String)
    ensures
        r@ == delete_question(
            match project_dir_name {
                Some(n) => Some(n@),
                None => None,
            },
        ),
{
    let mut out: Vec<char> = Vec::new();
    push_str(&mut out, "Delete project `");
    match project_dir_name {
        Some(n) => push_str(&mut out, n),
        None => push_str(&mut out, "current project"),
    }
    push_str(&mut out, "`?");
    string_of(&out)
}

/// How a button of the delete confirmation is drawn.
#[derive(Debug, Clone, Copy, PartialEq, Eq, Structural)]
pub enum ConfirmButtonLook {
    /// Black on yellow, bold: Cancel selected.
    Selected,
    /// White on red, bold: Delete selected.
    Danger,
    /// White on dark grey.
    Idle,
}

/// The looks of the Cancel and Delete buttons for the selected button.
pub fn delete_confirmation_buttons(selection: usize) -> (r: (ConfirmButtonLook, ConfirmButtonLook))
    ensures
        r.0 == (if selection == DELETE_CONFIRM_CANCEL_INDEX {
            ConfirmButtonLook::Selected
        } else {
            ConfirmButtonLook::Idle
        }),
        r.1 == (if selection == DELETE_CONFIRM_DELETE_INDEX {
            ConfirmButtonLook::Danger
        } else {
            ConfirmButtonLook::Idle
        }),
{
    let cancel = if selection == DELETE_CONFIRM_CANCEL_INDEX {
        ConfirmButtonLook::Selected
    } else {
        ConfirmButtonLook::Idle
    };
    let delete = if selection == DELETE_CONFIRM_DELETE_INDEX {
        ConfirmButtonLook::Danger
    } else {
        ConfirmButtonLook::Idle
    };
    (cancel, delete)
}

/// The lines of the first-install guidance; `terminal_name` names the
/// terminal the program runs in, when it is known.
pub open spec fn first_install_notice(terminal_name: Option<Seq<char>>) -> Seq<Seq<char>> {
    seq![
        ""@,
        "Restart "@ + match terminal_name {
            Some(n) => "all "@ + n + " terminals"@,
            None => "all terminals"@,
        } + " to load the newly installed glyphs."@,
        ""@,
        "If glyphs still appear as errors or [?] after restarting the terminals, reboot your computer."@,
        "This fully resets the processes that may still be using the old font state."@,
        "Then relaunch petiglyph and check the sample/preview again."@,
        ""@,
        "Press Enter, Esc, or Space to dismiss this message."@,
    ]
}

fn text(lit: &str) -> (r: String)
    ensures
        r@ == lit@,
{
    let mut out: Vec<char> = Vec::new();
    push_str(&mut out, lit);
    string_of(&out)
}

pub fn first_install_notice_lines(terminal_name: Option<&str>) -> (r: Vec<String>)
    ensures
        views(r@) == first_install_notice(
            match terminal_name {
                Some(n) => Some(n@),
                None => None,
            },
        ),
{
    let mut restart: Vec<char> = Vec::new();
    push_str(&mut restart, "Restart ");
    match terminal_name {
        Some(n) => {
            push_str(&mut restart, "all ");
            push_str(&mut restart, n);
            push_str(&mut restart, " terminals");
        },
        None => push_str(&mut restart, "all terminals"),
    }
    push_str(&mut restart, " to load the newly installed glyphs.");
    let ghost spec_lines = first_install_notice(
        match terminal_name {
            Some(n) => Some(n@),
            None => None,
        },
    );
    assert(restart@ =~= spec_lines[1]);
    let mut lines: Vec<String> = Vec::new();
    lines.push(text(""));
    lines.push(string_of(&restart));
    lines.push(text(""));
    lines.push(text("If glyphs still appear as errors or [?] after restarting the terminals, reboot your computer."));
    lines.push(text("This fully resets the processes that may still be using the old font state."));
    lines.push(text("Then relaunch petiglyph and check the sample/preview again."));
    lines.push(text(""));
    lines.push(text("Press Enter, Esc, or Space to dismiss this message."));
    proof {
        assert(views(lines@) =~= spec_lines);
    }
    lines
}

/// The status line of a project that failed to load: the warning about
/// artifacts built by an incompatible version, when there is one, else
/// the error itself.
pub fn status_from_error(incompatible_warning: Option<String>, error_text: &str) -> (r: String)
    ensures
        r@ == match incompatible_warning {
            Some(w) => w@,
            None => error_text@,
        },
{
    match incompatible_warning {
        Some(w) => w,
        None => text(error_text),
    }
}

} // verus!
