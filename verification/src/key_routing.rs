//! Which part of the interface a key goes to: the first-install notice,
//! the Home panel, the Glyphs view, the verbose-paths switch, or a jump
//! between the two panels.
use vstd::prelude::*;
use crate::config_keys::closes_first_install_notice;
use crate::controls::{Key, KeyPress};
use crate::home_panel::WelcomeFocus;

verus! {

/// The two panels of the interface.
#[derive(Debug, Clone, Copy, PartialEq, Eq, Structural)]
pub enum AppView {
    Welcome,
    Glyphs,
}

/// What decides where a key goes: the panel shown, whether the
/// first-install notice or the delete confirmation is open, whether the
/// project name or a rename is being typed, and whether a project is open.
#[derive(Debug, Clone, Copy, PartialEq, Eq, Structural)]
pub struct RouteContext {
    pub view: AppView,
    pub notice_open: bool,
    pub deleting: bool,
    pub editing: bool,
    pub renaming: bool,
    pub has_active_project: bool,
}

/// Where a key goes.
#[derive(Debug, Clone, Copy, PartialEq, Eq, Structural)]
pub enum KeyRoute {
    FirstInstallNotice,
    Welcome,
    Glyphs,
    ToggleVerbosePaths,
    /// Stop typing and show `view`, focusing `welcome_focus` on the Home
    /// panel when there is one; `close_grid` closes the grid popup and
    /// stops picking a grid source.
    SwitchPanel { view: AppView, welcome_focus: Option<WelcomeFocus>, close_grid: bool },
}

pub open spec fn other_view(v: AppView) -> AppView {
    match v {
        AppView::Welcome => AppView::Glyphs,
        AppView::Glyphs => AppView::Welcome,
    }
}

/// Tab and Shift-Tab always jump between the panels; `1` and `2` do so
/// unless text is being typed.
pub open spec fn is_panel_jump(c: RouteContext, k: Key) -> bool {
    k == Key::Tab || k == Key::BackTab || ((k == Key::Char('1') || k == Key::Char('2')) && !c.editing && !c.renaming)
}

pub open spec fn route(c: RouteContext, k: Key) -> KeyRoute {
    if c.notice_open {
        KeyRoute::FirstInstallNotice
    } else if c.view == AppView::Welcome && c.deleting {
        KeyRoute::Welcome
    } else if (k == Key::Char('v') || k == Key::Char('V')) && !c.editing && !c.renaming {
        KeyRoute::ToggleVerbosePaths
    } else if !is_panel_jump(c, k) {
        if c.view == AppView::Welcome {
            KeyRoute::Welcome
        } else {
            KeyRoute::Glyphs
        }
    } else if k == Key::Char('1') {
        KeyRoute::SwitchPanel {
            view: AppView::Welcome,
            welcome_focus: if c.view == AppView::Glyphs && c.has_active_project {
                Some(WelcomeFocus::InstallButton)
            } else {
                None
            },
            close_grid: true,
        }
    } else if k == Key::Char('2') {
        KeyRoute::SwitchPanel { view: AppView::Glyphs, welcome_focus: None, close_grid: false }
    } else {
        let v = other_view(c.view);
        KeyRoute::SwitchPanel {
            view: v,
            welcome_focus: if v == AppView::Welcome && c.has_active_project {
                Some(if k == Key::Tab { WelcomeFocus::InstallButton } else { WelcomeFocus::InstalledFontList })
            } else {
                None
            },
            close_grid: false,
        }
    }
}

/// A key pressed in the interface as a whole: while the first-install
/// notice is open the key only goes to the notice (Enter, Esc or Space
/// close it) and `rest`, everything else the interface holds, comes back
/// as it was; otherwise `handle` takes the key and gives the rest and
/// whether the notice is open afterwards.  The result is whether the
/// notice is open afterwards, and the rest.
pub fn handle_key_with_notice<S, F>(notice_open: bool, rest: S, key: &KeyPress, handle: F) -> (r: (bool, S))
    where
        F: FnOnce(S, &KeyPress) -> (bool, S),
    requires
        !notice_open ==> call_requires(handle, (rest, key)),
    ensures
        notice_open ==> r.1 == rest && r.0 == !(key.code == Key::Enter || key.code == Key::Esc || key.code
            == Key::Char(' ')),
        !notice_open ==> call_ensures(handle, (rest, key), r),
{
    if notice_open {
        let closes = closes_first_install_notice(key);
        (!closes, rest)
    } else {
        handle(rest, key)
    }
}

/// Routes a key.
pub fn route_key(c: RouteContext, k: Key) -> (r: KeyRoute)
    ensures
        r == route(c, k),
{
    if c.notice_open {
        return KeyRoute::FirstInstallNotice;
    }
    if c.view == AppView::Welcome && c.deleting {
        return KeyRoute::Welcome;
    }
    if (k == Key::Char('v') || k == Key::Char('V')) && !c.editing && !c.renaming {
        return KeyRoute::ToggleVerbosePaths;
    }
    let jump = k == Key::Tab || k == Key::BackTab || ((k == Key::Char('1') || k == Key::Char('2')) && !c.editing
        && !c.renaming);
    if !jump {
        return match c.view {
            AppView::Welcome => KeyRoute::Welcome,
            AppView::Glyphs => KeyRoute::Glyphs,
        };
    }
    if k == Key::Char('1') {
        let focus = if c.view == AppView::Glyphs && c.has_active_project {
            Some(WelcomeFocus::InstallButton)
        } else {
            None
        };
        KeyRoute::SwitchPanel { view: AppView::Welcome, welcome_focus: focus, close_grid: true }
    } else if k == Key::Char('2') {
        KeyRoute::SwitchPanel { view: AppView::Glyphs, welcome_focus: None, close_grid: false }
    } else {
        let v = match c.view {
            AppView::Welcome => AppView::Glyphs,
            AppView::Glyphs => AppView::Welcome,
        };
        let focus = if v == AppView::Welcome && c.has_active_project {
            Some(if k == Key::Tab { WelcomeFocus::InstallButton } else { WelcomeFocus::InstalledFontList })
        } else {
            None
        };
        KeyRoute::SwitchPanel { view: v, welcome_focus: focus, close_grid: false }
    }
}

/// Tab (or Shift-Tab) pressed twice, with nothing open, comes back to the
/// panel it started from.
pub proof fn lemma_panel_jump_twice_returns(c: RouteContext, k: Key)
    requires
        !c.notice_open,
        !c.deleting,
        k == Key::Tab || k == Key::BackTab,
    ensures
        ({
            let first = route(c, k);
            &&& first matches KeyRoute::SwitchPanel { view, .. }
            &&& view == other_view(c.view)
            &&& route(RouteContext { view, editing: false, ..c }, k) matches KeyRoute::SwitchPanel { view: back, .. }
                && back == c.view
        }),
{
}


/// What a key does while a project is being renamed.
#[derive(Debug, Clone, Copy, PartialEq, Eq, Structural)]
pub enum RenameKeyAction {
    /// Drop the rename; the status line says `rename canceled`.
    Cancel,
    Confirm,
    /// Hand the key to the name being typed.
    Edit,
    Ignore,
}

/// `name_char_allowed` tells whether the typed character may stand in a
/// project name.
pub open spec fn rename_action(k: Key, name_char_allowed: bool) -> RenameKeyAction {
    match k {
        Key::Esc => RenameKeyAction::Cancel,
        Key::Enter => RenameKeyAction::Confirm,
        Key::Char(_) => if name_char_allowed {
            RenameKeyAction::Edit
        } else {
            RenameKeyAction::Ignore
        },
        Key::Backspace | Key::Delete | Key::Left | Key::Right | Key::Home | Key::End => RenameKeyAction::Edit,
        _ => RenameKeyAction::Ignore,
    }
}

/// Decides what a key does during a rename.
pub fn rename_key_action(k: Key, name_char_allowed: bool) -> (r: RenameKeyAction)
    ensures
        r == rename_action(k, name_char_allowed),
{
    match k {
        Key::Esc => RenameKeyAction::Cancel,
        Key::Enter => RenameKeyAction::Confirm,
        Key::Char(_) => if name_char_allowed {
            RenameKeyAction::Edit
        } else {
            RenameKeyAction::Ignore
        },
        Key::Backspace | Key::Delete | Key::Left | Key::Right | Key::Home | Key::End => RenameKeyAction::Edit,
        _ => RenameKeyAction::Ignore,
    }
}

} // verus!
