//! Keyboard navigation of the Home panel: which control has the focus, which
//! project and installed-font row are selected, and what a key asks the
//! caller to do.  The caller owns the projects, the fonts and the tasks; it
//! hands their shape in as a `HomeContext` and performs the `HomeAction`.
use vstd::prelude::*;
use crate::controls::{Key, KeyPress};
use crate::model::HomeCreationKind;
use crate::text::{chars_of, decimal, is_blank, push_decimal, push_str, string_of, trim};

verus! {

/// The control of the Home panel that has the focus.
#[derive(Debug, Clone, Copy, PartialEq, Eq, Structural)]
pub enum WelcomeFocus {
    VerbosePathsToggle,
    ProjectList,
    CreateInput,
    BuildButton,
    InstallButton,
    DeleteProjectButton,
    HomeCreateButtons,
    InstalledFontList,
}

/// The button of the 2 x 2 creation launcher that has the focus.
#[derive(Debug, Clone, Copy, PartialEq, Eq, Structural)]
pub enum HomeLauncherFocus {
    CreateGlyph,
    CreateGrid,
    CreateAnimatedGlyph,
    CreateAnimatedGridGlyph,
}

/// The navigation state of the Home panel.
#[derive(Debug, Clone, Copy, PartialEq, Eq, Structural)]
pub struct HomePanel {
    pub focus: WelcomeFocus,
    pub launcher: HomeLauncherFocus,
    /// The project-name input takes the keys.
    pub input_editing: bool,
    pub verbose_paths: bool,
    pub selected_project: usize,
    pub selected_installed_font: usize,
    /// Row 0 is the font's path, then its sample blocks, then its animations.
    pub installed_font_sub_index: usize,
    /// On row 0, the Uninstall button rather than the path has the focus.
    pub uninstall_focus: bool,
}

/// What the Home panel shows, as far as navigation needs it.
#[derive(Debug, Clone)]
pub struct HomeContext {
    /// One entry per listed project: whether its manifest is malformed.
    pub projects_malformed: Vec<bool>,
    /// The listed project that is open, if it is listed.
    pub active_project_index: Option<usize>,
    /// A project is open.
    pub has_active_project: bool,
    pub active_project_can_be_deleted: bool,
    /// The number of rows of each installed font.
    pub installed_font_rows: Vec<usize>,
    pub project_switch_in_progress: bool,
    /// The text of the project-name input.
    pub create_input: String,
}

/// What the caller does after a key on the Home panel.
#[derive(Debug, Clone, Copy, PartialEq, Eq, Structural)]
pub enum HomeAction {
    /// Nothing beyond the new navigation state.
    Nothing,
    Quit,
    /// Clear the status line.
    ClearStatus,
    /// Report that a project switch is still running.
    ProjectSwitchBusy,
    /// Open the creation popup; `announce` asks for the shortcut's status line.
    StartCreation { kind: HomeCreationKind, announce: bool },
    Rescan,
    Install,
    UninstallSelectedFont,
    /// Report the new verbose-paths setting.
    VerbosePathsToggled,
    /// Report that the selected project cannot be opened.
    MalformedProject,
    RenameActiveProject,
    SwitchProject(usize),
    /// Clear the status line and create a project named by the input.
    SubmitCreate,
    BeginDeleteConfirmation,
    /// Copy row `sub` of installed font `font` to the clipboard.
    CopyInstalledRow { font: usize, sub: usize },
    /// Hand the key to the project-name input.
    TypeIntoInput,
}

pub open spec fn project_count(c: HomeContext) -> nat {
    c.projects_malformed@.len()
}

pub open spec fn font_count(c: HomeContext) -> nat {
    c.installed_font_rows@.len()
}

/// The number of rows of installed font `i` (none for a font that is not
/// there).
pub open spec fn rows_of(c: HomeContext, i: int) -> nat {
    if 0 <= i < c.installed_font_rows@.len() {
        c.installed_font_rows@[i] as nat
    } else {
        0
    }
}

/// The selection always names something that is shown: a project when
/// there are projects, an existing row of an existing font when the font
/// list has the focus, and the Uninstall button only on a font's first row.
pub open spec fn wf(p: HomePanel, c: HomeContext) -> bool {
    &&& project_count(c) > 0 ==> p.selected_project < project_count(c)
    &&& p.focus == WelcomeFocus::ProjectList ==> project_count(c) > 0
    &&& p.focus == WelcomeFocus::InstalledFontList ==> {
        &&& p.selected_installed_font < font_count(c)
        &&& (p.installed_font_sub_index == 0 || p.installed_font_sub_index < rows_of(c, p.selected_installed_font as int))
    }
    &&& p.uninstall_focus ==> p.installed_font_sub_index == 0
}

pub open spec fn with_focus(p: HomePanel, f: WelcomeFocus) -> HomePanel {
    HomePanel { focus: f, ..p }
}

/// The first row of the first font.
pub open spec fn enter_font_list(p: HomePanel) -> HomePanel {
    HomePanel {
        focus: WelcomeFocus::InstalledFontList,
        selected_installed_font: 0,
        installed_font_sub_index: 0,
        uninstall_focus: false,
        ..p
    }
}

pub open spec fn launcher_kind(l: HomeLauncherFocus) -> HomeCreationKind {
    match l {
        HomeLauncherFocus::CreateGlyph => HomeCreationKind::Glyph,
        HomeLauncherFocus::CreateGrid => HomeCreationKind::Grid,
        HomeLauncherFocus::CreateAnimatedGlyph => HomeCreationKind::AnimatedGlyph,
        HomeLauncherFocus::CreateAnimatedGridGlyph => HomeCreationKind::AnimatedGridGlyph,
    }
}

/// Up (or `k`).
pub open spec fn focus_up(p: HomePanel, c: HomeContext) -> HomePanel {
    match p.focus {
        WelcomeFocus::VerbosePathsToggle => p,
        WelcomeFocus::ProjectList => if p.selected_project > 0 {
            HomePanel { selected_project: (p.selected_project - 1) as usize, ..p }
        } else {
            with_focus(p, WelcomeFocus::VerbosePathsToggle)
        },
        WelcomeFocus::CreateInput => if project_count(c) > 0 {
            HomePanel {
                focus: WelcomeFocus::ProjectList,
                selected_project: (project_count(c) - 1) as usize,
                ..p
            }
        } else {
            with_focus(p, WelcomeFocus::VerbosePathsToggle)
        },
        WelcomeFocus::HomeCreateButtons => match p.launcher {
            HomeLauncherFocus::CreateGlyph => with_focus(p, WelcomeFocus::InstallButton),
            HomeLauncherFocus::CreateGrid => with_focus(p, WelcomeFocus::DeleteProjectButton),
            HomeLauncherFocus::CreateAnimatedGlyph => HomePanel { launcher: HomeLauncherFocus::CreateGlyph, ..p },
            HomeLauncherFocus::CreateAnimatedGridGlyph => HomePanel { launcher: HomeLauncherFocus::CreateGrid, ..p },
        },
        WelcomeFocus::BuildButton | WelcomeFocus::InstallButton | WelcomeFocus::DeleteProjectButton => with_focus(
            p,
            WelcomeFocus::VerbosePathsToggle,
        ),
        WelcomeFocus::InstalledFontList => if p.installed_font_sub_index > 0 {
            HomePanel {
                installed_font_sub_index: (p.installed_font_sub_index - 1) as usize,
                uninstall_focus: false,
                ..p
            }
        } else if p.selected_installed_font > 0 {
            let f = p.selected_installed_font - 1;
            HomePanel {
                selected_installed_font: f as usize,
                installed_font_sub_index: (if rows_of(c, f) > 0 { rows_of(c, f) - 1 } else { 0 }) as usize,
                uninstall_focus: false,
                ..p
            }
        } else if c.has_active_project {
            with_focus(p, WelcomeFocus::InstallButton)
        } else if project_count(c) > 0 {
            with_focus(p, WelcomeFocus::ProjectList)
        } else {
            with_focus(p, WelcomeFocus::VerbosePathsToggle)
        },
    }
}

/// Down (or `j`).
pub open spec fn focus_down(p: HomePanel, c: HomeContext) -> HomePanel {
    match p.focus {
        WelcomeFocus::VerbosePathsToggle => if c.has_active_project {
            with_focus(p, WelcomeFocus::InstallButton)
        } else if project_count(c) > 0 {
            with_focus(p, WelcomeFocus::ProjectList)
        } else {
            with_focus(p, WelcomeFocus::CreateInput)
        },
        WelcomeFocus::ProjectList => if p.selected_project + 1 < project_count(c) {
            HomePanel { selected_project: (p.selected_project + 1) as usize, ..p }
        } else {
            with_focus(p, WelcomeFocus::CreateInput)
        },
        WelcomeFocus::CreateInput => if font_count(c) > 0 {
            enter_font_list(p)
        } else {
            p
        },
        WelcomeFocus::BuildButton | WelcomeFocus::InstallButton | WelcomeFocus::DeleteProjectButton => if c.has_active_project {
            HomePanel {
                focus: WelcomeFocus::HomeCreateButtons,
                launcher: if p.focus == WelcomeFocus::DeleteProjectButton {
                    HomeLauncherFocus::CreateGrid
                } else {
                    HomeLauncherFocus::CreateGlyph
                },
                ..p
            }
        } else if font_count(c) == 0 {
            p
        } else {
            enter_font_list(p)
        },
        WelcomeFocus::HomeCreateButtons => match p.launcher {
            HomeLauncherFocus::CreateGlyph => HomePanel { launcher: HomeLauncherFocus::CreateAnimatedGlyph, ..p },
            HomeLauncherFocus::CreateGrid => HomePanel { launcher: HomeLauncherFocus::CreateAnimatedGridGlyph, ..p },
            _ => if font_count(c) == 0 {
                p
            } else {
                enter_font_list(p)
            },
        },
        WelcomeFocus::InstalledFontList => if p.uninstall_focus {
            let rows = rows_of(c, p.selected_installed_font as int);
            HomePanel {
                uninstall_focus: false,
                installed_font_sub_index: if rows >= 2 { 1usize } else { 0usize },
                ..p
            }
        } else if p.installed_font_sub_index + 1 < rows_of(c, p.selected_installed_font as int) {
            HomePanel { installed_font_sub_index: (p.installed_font_sub_index + 1) as usize, ..p }
        } else if p.selected_installed_font + 1 < font_count(c) {
            HomePanel {
                selected_installed_font: (p.selected_installed_font + 1) as usize,
                installed_font_sub_index: 0,
                ..p
            }
        } else {
            p
        },
    }
}

/// Left (or `h`).
pub open spec fn focus_left(p: HomePanel, c: HomeContext) -> HomePanel {
    match p.focus {
        WelcomeFocus::VerbosePathsToggle => if project_count(c) == 0 {
            with_focus(p, WelcomeFocus::CreateInput)
        } else {
            HomePanel { focus: WelcomeFocus::ProjectList, selected_project: 0, ..p }
        },
        WelcomeFocus::BuildButton | WelcomeFocus::InstallButton => with_focus(p, WelcomeFocus::CreateInput),
        WelcomeFocus::DeleteProjectButton => with_focus(p, WelcomeFocus::InstallButton),
        WelcomeFocus::HomeCreateButtons => match p.launcher {
            HomeLauncherFocus::CreateGlyph | HomeLauncherFocus::CreateAnimatedGlyph => with_focus(p, WelcomeFocus::CreateInput),
            HomeLauncherFocus::CreateGrid => HomePanel { launcher: HomeLauncherFocus::CreateGlyph, ..p },
            HomeLauncherFocus::CreateAnimatedGridGlyph => HomePanel { launcher: HomeLauncherFocus::CreateAnimatedGlyph, ..p },
        },
        WelcomeFocus::InstalledFontList => if p.installed_font_sub_index == 0 {
            HomePanel { uninstall_focus: false, ..p }
        } else {
            p
        },
        WelcomeFocus::ProjectList | WelcomeFocus::CreateInput => p,
    }
}

/// Right (or `l`).
pub open spec fn focus_right(p: HomePanel, c: HomeContext) -> HomePanel {
    match p.focus {
        WelcomeFocus::VerbosePathsToggle | WelcomeFocus::DeleteProjectButton => p,
        WelcomeFocus::CreateInput => if c.has_active_project {
            HomePanel { focus: WelcomeFocus::HomeCreateButtons, launcher: HomeLauncherFocus::CreateAnimatedGlyph, ..p }
        } else {
            with_focus(p, WelcomeFocus::VerbosePathsToggle)
        },
        WelcomeFocus::ProjectList => if c.has_active_project {
            with_focus(p, WelcomeFocus::InstallButton)
        } else {
            p
        },
        WelcomeFocus::BuildButton => if c.has_active_project {
            with_focus(p, WelcomeFocus::InstallButton)
        } else {
            with_focus(p, WelcomeFocus::CreateInput)
        },
        WelcomeFocus::InstallButton => if !c.has_active_project {
            with_focus(p, WelcomeFocus::CreateInput)
        } else if c.active_project_can_be_deleted {
            with_focus(p, WelcomeFocus::DeleteProjectButton)
        } else {
            p
        },
        WelcomeFocus::HomeCreateButtons => HomePanel {
            launcher: match p.launcher {
                HomeLauncherFocus::CreateGlyph | HomeLauncherFocus::CreateGrid => HomeLauncherFocus::CreateGrid,
                _ => HomeLauncherFocus::CreateAnimatedGridGlyph,
            },
            ..p
        },
        WelcomeFocus::InstalledFontList => if p.installed_font_sub_index == 0 {
            HomePanel { uninstall_focus: true, ..p }
        } else {
            p
        },
    }
}

pub open spec fn not_editing(p: HomePanel) -> HomePanel {
    HomePanel { input_editing: false, ..p }
}

/// Enter on the focused control.
pub open spec fn enter_key(p: HomePanel, c: HomeContext) -> (HomePanel, HomeAction) {
    match p.focus {
        WelcomeFocus::VerbosePathsToggle => (
            HomePanel { input_editing: false, verbose_paths: !p.verbose_paths, ..p },
            HomeAction::VerbosePathsToggled,
        ),
        WelcomeFocus::ProjectList => if p.selected_project < project_count(c) {
            if c.projects_malformed@[p.selected_project as int] {
                (not_editing(p), HomeAction::MalformedProject)
            } else if c.active_project_index == Some(p.selected_project) {
                (not_editing(p), HomeAction::RenameActiveProject)
            } else {
                (not_editing(p), HomeAction::SwitchProject(p.selected_project))
            }
        } else {
            (not_editing(p), HomeAction::Nothing)
        },
        WelcomeFocus::CreateInput => if p.input_editing {
            (not_editing(p), if trim(c.create_input@).len() == 0 {
                HomeAction::ClearStatus
            } else {
                HomeAction::SubmitCreate
            })
        } else {
            (HomePanel { input_editing: true, ..p }, HomeAction::ClearStatus)
        },
        WelcomeFocus::BuildButton | WelcomeFocus::InstallButton => (not_editing(p), HomeAction::Install),
        WelcomeFocus::DeleteProjectButton => (not_editing(p), HomeAction::BeginDeleteConfirmation),
        WelcomeFocus::HomeCreateButtons => (p, HomeAction::StartCreation { kind: launcher_kind(p.launcher), announce: false }),
        WelcomeFocus::InstalledFontList => if p.uninstall_focus {
            (not_editing(p), HomeAction::UninstallSelectedFont)
        } else if p.selected_installed_font < font_count(c) {
            (
                not_editing(p),
                HomeAction::CopyInstalledRow { font: p.selected_installed_font, sub: p.installed_font_sub_index },
            )
        } else {
            (not_editing(p), HomeAction::Nothing)
        },
    }
}

pub open spec fn digit_kind(k: Key) -> Option<HomeCreationKind> {
    if k == Key::Char('1') {
        Some(HomeCreationKind::Glyph)
    } else if k == Key::Char('2') {
        Some(HomeCreationKind::Grid)
    } else if k == Key::Char('3') {
        Some(HomeCreationKind::AnimatedGlyph)
    } else if k == Key::Char('4') {
        Some(HomeCreationKind::AnimatedGridGlyph)
    } else {
        None
    }
}

pub open spec fn is_up(k: Key) -> bool {
    k == Key::Up || k == Key::Char('k')
}

pub open spec fn is_down(k: Key) -> bool {
    k == Key::Down || k == Key::Char('j')
}

pub open spec fn is_left(k: Key) -> bool {
    k == Key::Left || k == Key::Char('h')
}

pub open spec fn is_right(k: Key) -> bool {
    k == Key::Right || k == Key::Char('l')
}

/// A key on the Home panel while no popup, workflow or rename is open.
/// While a project switch runs, every key but Esc and `q` only reports it.
/// The letter shortcuts and the arrows act only while the name input is not
/// being edited; other keys then go to the input.
pub open spec fn home_step(p: HomePanel, c: HomeContext, k: Key) -> (HomePanel, HomeAction) {
    if c.project_switch_in_progress && !(k == Key::Esc || k == Key::Char('q')) {
        (p, HomeAction::ProjectSwitchBusy)
    } else if k == Key::Esc {
        if p.input_editing {
            (not_editing(p), HomeAction::ClearStatus)
        } else {
            (p, HomeAction::Quit)
        }
    } else if p.input_editing {
        if k == Key::Enter {
            enter_key(p, c)
        } else if p.focus == WelcomeFocus::CreateInput {
            (p, HomeAction::TypeIntoInput)
        } else {
            (p, HomeAction::Nothing)
        }
    } else if k == Key::Char('q') {
        (p, HomeAction::Quit)
    } else if digit_kind(k) is Some && c.has_active_project {
        (p, HomeAction::StartCreation { kind: digit_kind(k)->0, announce: true })
    } else if k == Key::Char('R') {
        (p, HomeAction::Rescan)
    } else if k == Key::Char('i') {
        (p, HomeAction::Install)
    } else if is_up(k) {
        (focus_up(p, c), HomeAction::Nothing)
    } else if is_down(k) {
        (focus_down(p, c), HomeAction::Nothing)
    } else if is_left(k) {
        (focus_left(p, c), HomeAction::Nothing)
    } else if is_right(k) {
        (focus_right(p, c), HomeAction::Nothing)
    } else if k == Key::Enter {
        enter_key(p, c)
    } else {
        (p, HomeAction::Nothing)
    }
}

fn rows_at(c: &HomeContext, i: usize) -> (r: usize)
    ensures
        r == rows_of(*c, i as int),
{
    if i < c.installed_font_rows.len() {
        c.installed_font_rows[i]
    } else {
        0
    }
}

fn enter_font_list_exec(p: HomePanel) -> (r: HomePanel)
    ensures
        r == enter_font_list(p),
{
    HomePanel {
        focus: WelcomeFocus::InstalledFontList,
        selected_installed_font: 0,
        installed_font_sub_index: 0,
        uninstall_focus: false,
        ..p
    }
}

fn up_exec(p: HomePanel, c: &HomeContext) -> (r: HomePanel)
    ensures
        r == focus_up(p, *c),
{
    let pc = c.projects_malformed.len();
    match p.focus {
        WelcomeFocus::VerbosePathsToggle => p,
        WelcomeFocus::ProjectList => if p.selected_project > 0 {
            HomePanel { selected_project: p.selected_project - 1, ..p }
        } else {
            HomePanel { focus: WelcomeFocus::VerbosePathsToggle, ..p }
        },
        WelcomeFocus::CreateInput => if pc > 0 {
            HomePanel { focus: WelcomeFocus::ProjectList, selected_project: pc - 1, ..p }
        } else {
            HomePanel { focus: WelcomeFocus::VerbosePathsToggle, ..p }
        },
        WelcomeFocus::HomeCreateButtons => match p.launcher {
            HomeLauncherFocus::CreateGlyph => HomePanel { focus: WelcomeFocus::InstallButton, ..p },
            HomeLauncherFocus::CreateGrid => HomePanel { focus: WelcomeFocus::DeleteProjectButton, ..p },
            HomeLauncherFocus::CreateAnimatedGlyph => HomePanel { launcher: HomeLauncherFocus::CreateGlyph, ..p },
            HomeLauncherFocus::CreateAnimatedGridGlyph => HomePanel { launcher: HomeLauncherFocus::CreateGrid, ..p },
        },
        WelcomeFocus::BuildButton | WelcomeFocus::InstallButton | WelcomeFocus::DeleteProjectButton => HomePanel {
            focus: WelcomeFocus::VerbosePathsToggle,
            ..p
        },
        WelcomeFocus::InstalledFontList => if p.installed_font_sub_index > 0 {
            HomePanel { installed_font_sub_index: p.installed_font_sub_index - 1, uninstall_focus: false, ..p }
        } else if p.selected_installed_font > 0 {
            let f = p.selected_installed_font - 1;
            let rows = rows_at(c, f);
            HomePanel {
                selected_installed_font: f,
                installed_font_sub_index: if rows > 0 { rows - 1 } else { 0 },
                uninstall_focus: false,
                ..p
            }
        } else if c.has_active_project {
            HomePanel { focus: WelcomeFocus::InstallButton, ..p }
        } else if pc > 0 {
            HomePanel { focus: WelcomeFocus::ProjectList, ..p }
        } else {
            HomePanel { focus: WelcomeFocus::VerbosePathsToggle, ..p }
        },
    }
}

fn down_exec(p: HomePanel, c: &HomeContext) -> (r: HomePanel)
    ensures
        r == focus_down(p, *c),
{
    let pc = c.projects_malformed.len();
    let fc = c.installed_font_rows.len();
    match p.focus {
        WelcomeFocus::VerbosePathsToggle => if c.has_active_project {
            HomePanel { focus: WelcomeFocus::InstallButton, ..p }
        } else if pc > 0 {
            HomePanel { focus: WelcomeFocus::ProjectList, ..p }
        } else {
            HomePanel { focus: WelcomeFocus::CreateInput, ..p }
        },
        WelcomeFocus::ProjectList => if p.selected_project < pc && pc - p.selected_project > 1 {
            HomePanel { selected_project: p.selected_project + 1, ..p }
        } else {
            HomePanel { focus: WelcomeFocus::CreateInput, ..p }
        },
        WelcomeFocus::CreateInput => if fc > 0 {
            enter_font_list_exec(p)
        } else {
            p
        },
        WelcomeFocus::BuildButton | WelcomeFocus::InstallButton | WelcomeFocus::DeleteProjectButton => if c.has_active_project {
            HomePanel {
                focus: WelcomeFocus::HomeCreateButtons,
                launcher: if p.focus == WelcomeFocus::DeleteProjectButton {
                    HomeLauncherFocus::CreateGrid
                } else {
                    HomeLauncherFocus::CreateGlyph
                },
                ..p
            }
        } else if fc == 0 {
            p
        } else {
            enter_font_list_exec(p)
        },
        WelcomeFocus::HomeCreateButtons => match p.launcher {
            HomeLauncherFocus::CreateGlyph => HomePanel { launcher: HomeLauncherFocus::CreateAnimatedGlyph, ..p },
            HomeLauncherFocus::CreateGrid => HomePanel { launcher: HomeLauncherFocus::CreateAnimatedGridGlyph, ..p },
            _ => if fc == 0 {
                p
            } else {
                enter_font_list_exec(p)
            },
        },
        WelcomeFocus::InstalledFontList => {
            let rows = rows_at(c, p.selected_installed_font);
            if p.uninstall_focus {
                HomePanel { uninstall_focus: false, installed_font_sub_index: if rows >= 2 { 1 } else { 0 }, ..p }
            } else if p.installed_font_sub_index < rows && rows - p.installed_font_sub_index > 1 {
                HomePanel { installed_font_sub_index: p.installed_font_sub_index + 1, ..p }
            } else if p.selected_installed_font < fc && fc - p.selected_installed_font > 1 {
                HomePanel { selected_installed_font: p.selected_installed_font + 1, installed_font_sub_index: 0, ..p }
            } else {
                p
            }
        },
    }
}

fn left_exec(p: HomePanel, c: &HomeContext) -> (r: HomePanel)
    ensures
        r == focus_left(p, *c),
{
    match p.focus {
        WelcomeFocus::VerbosePathsToggle => if c.projects_malformed.len() == 0 {
            HomePanel { focus: WelcomeFocus::CreateInput, ..p }
        } else {
            HomePanel { focus: WelcomeFocus::ProjectList, selected_project: 0, ..p }
        },
        WelcomeFocus::BuildButton | WelcomeFocus::InstallButton => HomePanel { focus: WelcomeFocus::CreateInput, ..p },
        WelcomeFocus::DeleteProjectButton => HomePanel { focus: WelcomeFocus::InstallButton, ..p },
        WelcomeFocus::HomeCreateButtons => match p.launcher {
            HomeLauncherFocus::CreateGlyph | HomeLauncherFocus::CreateAnimatedGlyph => HomePanel {
                focus: WelcomeFocus::CreateInput,
                ..p
            },
            HomeLauncherFocus::CreateGrid => HomePanel { launcher: HomeLauncherFocus::CreateGlyph, ..p },
            HomeLauncherFocus::CreateAnimatedGridGlyph => HomePanel { launcher: HomeLauncherFocus::CreateAnimatedGlyph, ..p },
        },
        WelcomeFocus::InstalledFontList => if p.installed_font_sub_index == 0 {
            HomePanel { uninstall_focus: false, ..p }
        } else {
            p
        },
        WelcomeFocus::ProjectList | WelcomeFocus::CreateInput => p,
    }
}

fn right_exec(p: HomePanel, c: &HomeContext) -> (r: HomePanel)
    ensures
        r == focus_right(p, *c),
{
    match p.focus {
        WelcomeFocus::VerbosePathsToggle | WelcomeFocus::DeleteProjectButton => p,
        WelcomeFocus::CreateInput => if c.has_active_project {
            HomePanel { focus: WelcomeFocus::HomeCreateButtons, launcher: HomeLauncherFocus::CreateAnimatedGlyph, ..p }
        } else {
            HomePanel { focus: WelcomeFocus::VerbosePathsToggle, ..p }
        },
        WelcomeFocus::ProjectList => if c.has_active_project {
            HomePanel { focus: WelcomeFocus::InstallButton, ..p }
        } else {
            p
        },
        WelcomeFocus::BuildButton => if c.has_active_project {
            HomePanel { focus: WelcomeFocus::InstallButton, ..p }
        } else {
            HomePanel { focus: WelcomeFocus::CreateInput, ..p }
        },
        WelcomeFocus::InstallButton => if !c.has_active_project {
            HomePanel { focus: WelcomeFocus::CreateInput, ..p }
        } else if c.active_project_can_be_deleted {
            HomePanel { focus: WelcomeFocus::DeleteProjectButton, ..p }
        } else {
            p
        },
        WelcomeFocus::HomeCreateButtons => HomePanel {
            launcher: match p.launcher {
                HomeLauncherFocus::CreateGlyph | HomeLauncherFocus::CreateGrid => HomeLauncherFocus::CreateGrid,
                _ => HomeLauncherFocus::CreateAnimatedGridGlyph,
            },
            ..p
        },
        WelcomeFocus::InstalledFontList => if p.installed_font_sub_index == 0 {
            HomePanel { uninstall_focus: true, ..p }
        } else {
            p
        },
    }
}

fn enter_exec(p: HomePanel, c: &HomeContext) -> (r: (HomePanel, HomeAction))
    ensures
        r == enter_key(p, *c),
{
    let quiet = HomePanel { input_editing: false, ..p };
    match p.focus {
        WelcomeFocus::VerbosePathsToggle => (
            HomePanel { input_editing: false, verbose_paths: !p.verbose_paths, ..p },
            HomeAction::VerbosePathsToggled,
        ),
        WelcomeFocus::ProjectList => if p.selected_project < c.projects_malformed.len() {
            if c.projects_malformed[p.selected_project] {
                (quiet, HomeAction::MalformedProject)
            } else if c.active_project_index == Some(p.selected_project) {
                (quiet, HomeAction::RenameActiveProject)
            } else {
                (quiet, HomeAction::SwitchProject(p.selected_project))
            }
        } else {
            (quiet, HomeAction::Nothing)
        },
        WelcomeFocus::CreateInput => if p.input_editing {
            let blank = is_blank(&chars_of(c.create_input.as_str()));
            (quiet, if blank {
                HomeAction::ClearStatus
            } else {
                HomeAction::SubmitCreate
            })
        } else {
            (HomePanel { input_editing: true, ..p }, HomeAction::ClearStatus)
        },
        WelcomeFocus::BuildButton | WelcomeFocus::InstallButton => (quiet, HomeAction::Install),
        WelcomeFocus::DeleteProjectButton => (quiet, HomeAction::BeginDeleteConfirmation),
        WelcomeFocus::HomeCreateButtons => {
            let kind = match p.launcher {
                HomeLauncherFocus::CreateGlyph => HomeCreationKind::Glyph,
                HomeLauncherFocus::CreateGrid => HomeCreationKind::Grid,
                HomeLauncherFocus::CreateAnimatedGlyph => HomeCreationKind::AnimatedGlyph,
                HomeLauncherFocus::CreateAnimatedGridGlyph => HomeCreationKind::AnimatedGridGlyph,
            };
            (p, HomeAction::StartCreation { kind, announce: false })
        },
        WelcomeFocus::InstalledFontList => if p.uninstall_focus {
            (quiet, HomeAction::UninstallSelectedFont)
        } else if p.selected_installed_font < c.installed_font_rows.len() {
            (quiet, HomeAction::CopyInstalledRow { font: p.selected_installed_font, sub: p.installed_font_sub_index })
        } else {
            (quiet, HomeAction::Nothing)
        },
    }
}

fn digit_kind_exec(k: Key) -> (r: Option<HomeCreationKind>)
    ensures
        r == digit_kind(k),
{
    match k {
        Key::Char('1') => Some(HomeCreationKind::Glyph),
        Key::Char('2') => Some(HomeCreationKind::Grid),
        Key::Char('3') => Some(HomeCreationKind::AnimatedGlyph),
        Key::Char('4') => Some(HomeCreationKind::AnimatedGridGlyph),
        _ => None,
    }
}

/// Applies a key to the Home panel (while no popup, workflow or rename
/// takes the keys) and says what the caller does next.  Every key keeps the
/// selection on something that is shown.
pub fn handle_home_panel_key(panel: &mut HomePanel, context: &HomeContext, key: &KeyPress) -> (action: HomeAction)
    ensures
        (*final(panel), action) == home_step(*old(panel), *context, key.code),
        wf(*old(panel), *context) ==> wf(*final(panel), *context),
{
    let p = *panel;
    let k = key.code;
    let (next, action) = if context.project_switch_in_progress && !(k == Key::Esc || k == Key::Char('q')) {
        (p, HomeAction::ProjectSwitchBusy)
    } else if k == Key::Esc {
        if p.input_editing {
            (HomePanel { input_editing: false, ..p }, HomeAction::ClearStatus)
        } else {
            (p, HomeAction::Quit)
        }
    } else if p.input_editing {
        if k == Key::Enter {
            enter_exec(p, context)
        } else if p.focus == WelcomeFocus::CreateInput {
            (p, HomeAction::TypeIntoInput)
        } else {
            (p, HomeAction::Nothing)
        }
    } else if k == Key::Char('q') {
        (p, HomeAction::Quit)
    } else {
        match digit_kind_exec(k) {
            Some(kind) if context.has_active_project => (p, HomeAction::StartCreation { kind, announce: true }),
            _ => if k == Key::Char('R') {
                (p, HomeAction::Rescan)
            } else if k == Key::Char('i') {
                (p, HomeAction::Install)
            } else if k == Key::Up || k == Key::Char('k') {
                (up_exec(p, context), HomeAction::Nothing)
            } else if k == Key::Down || k == Key::Char('j') {
                (down_exec(p, context), HomeAction::Nothing)
            } else if k == Key::Left || k == Key::Char('h') {
                (left_exec(p, context), HomeAction::Nothing)
            } else if k == Key::Right || k == Key::Char('l') {
                (right_exec(p, context), HomeAction::Nothing)
            } else if k == Key::Enter {
                enter_exec(p, context)
            } else {
                (p, HomeAction::Nothing)
            },
        }
    };
    *panel = next;
    action
}

/// The status line of the `1`-`4` shortcuts of the Home panel.
pub open spec fn creation_shortcut_message(kind: HomeCreationKind) -> Seq<char> {
    match kind {
        HomeCreationKind::Glyph => "create glyph: import image(s), press Enter for tweaking, then continue"@,
        HomeCreationKind::Grid => "create grid: drop one image, Enter for tweaking, then configure grid"@,
        HomeCreationKind::AnimatedGlyph => "create animated glyph: import frame media, Enter for tweaking, then configure"@,
        HomeCreationKind::AnimatedGridGlyph => "create animated grid glyph: import frame media, Enter for tweaking, then configure"@,
    }
}

pub fn creation_shortcut_status(kind: HomeCreationKind) -> (r: &'static str)
    ensures
        r@ == creation_shortcut_message(kind),
{
    match kind {
        HomeCreationKind::Glyph => "create glyph: import image(s), press Enter for tweaking, then continue",
        HomeCreationKind::Grid => "create grid: drop one image, Enter for tweaking, then configure grid",
        HomeCreationKind::AnimatedGlyph => "create animated glyph: import frame media, Enter for tweaking, then configure",
        HomeCreationKind::AnimatedGridGlyph => "create animated grid glyph: import frame media, Enter for tweaking, then configure",
    }
}

pub fn verbose_paths_status(enabled: bool) -> (r: &'static str)
    ensures
        r@ == (if enabled { "verbose paths enabled"@ } else { "verbose paths disabled"@ }),
{
    if enabled {
        "verbose paths enabled"
    } else {
        "verbose paths disabled"
    }
}

/// What copying row `sub` of an installed font puts on the clipboard: the
/// font's path, then one sample block per row, then one animation per row
/// (nothing past the last row).
pub open spec fn installed_row_export(path: Seq<char>, blocks: Seq<String>, animations: Seq<String>, sub: nat) -> Seq<char> {
    if sub == 0 {
        path
    } else if sub - 1 < blocks.len() {
        blocks[sub - 1]@
    } else if sub - 1 - blocks.len() < animations.len() {
        animations[sub - 1 - blocks.len()]@
    } else {
        Seq::empty()
    }
}

pub fn installed_row_copy_content(path: &str, block_exports: &Vec<String>, animation_exports: &Vec<String>, sub: usize) -> (r: String)
    ensures
        r@ == installed_row_export(path@, block_exports@, animation_exports@, sub as nat),
{
    if sub == 0 {
        return string_of(&chars_of(path));
    }
    let s = sub - 1;
    if s < block_exports.len() {
        block_exports[s].clone()
    } else if s - block_exports.len() < animation_exports.len() {
        animation_exports[s - block_exports.len()].clone()
    } else {
        String::new()
    }
}

/// The id under which a copied row is remembered (to flash its "copied"
/// mark): `<font>-path`, `<font>-sample-<i>` or `<font>-animation-<i>`.
pub open spec fn installed_row_id(font: nat, sub: nat, block_count: nat) -> Seq<char> {
    decimal(font) + seq!['-'] + if sub == 0 {
        "path"@
    } else if sub - 1 < block_count {
        "sample-"@ + decimal((sub - 1) as nat)
    } else {
        "animation-"@ + decimal((sub - 1 - block_count) as nat)
    }
}

pub fn installed_row_copy_id(font: usize, sub: usize, block_count: usize) -> (r: String)
    ensures
        r@ == installed_row_id(font as nat, sub as nat, block_count as nat),
{
    let mut out: Vec<char> = Vec::new();
    push_decimal(&mut out, font as u64);
    out.push('-');
    if sub == 0 {
        push_str(&mut out, "path");
    } else if sub - 1 < block_count {
        push_str(&mut out, "sample-");
        push_decimal(&mut out, (sub - 1) as u64);
    } else {
        push_str(&mut out, "animation-");
        push_decimal(&mut out, (sub - 1 - block_count) as u64);
    }
    proof {
        assert(out@ =~= installed_row_id(font as nat, sub as nat, block_count as nat));
    }
    string_of(&out)
}

} // verus!
