use petiglyph_tui::welcome_text::creation_launcher_buttons;
use petiglyph_tui::controls::{Key, KeyPress};
use petiglyph_tui::home_panel::{
    creation_shortcut_status, handle_home_panel_key, installed_row_copy_content, installed_row_copy_id,
    verbose_paths_status, HomeAction, HomeContext, HomeLauncherFocus, HomePanel, WelcomeFocus,
};
use petiglyph_tui::model::HomeCreationKind;

fn press(code: Key) -> KeyPress {
    KeyPress { code, ctrl: false, keypad: false }
}

fn panel(focus: WelcomeFocus) -> HomePanel {
    HomePanel {
        focus,
        launcher: HomeLauncherFocus::CreateGlyph,
        input_editing: false,
        verbose_paths: false,
        selected_project: 0,
        selected_installed_font: 0,
        installed_font_sub_index: 0,
        uninstall_focus: false,
    }
}

fn open_project() -> HomeContext {
    HomeContext {
        projects_malformed: vec![false],
        active_project_index: Some(0),
        has_active_project: true,
        active_project_can_be_deleted: true,
        installed_font_rows: Vec::new(),
        project_switch_in_progress: false,
        create_input: String::new(),
    }
}

#[test]
fn up_from_create_glyph_jumps_to_install_button() {
    let mut p = panel(WelcomeFocus::HomeCreateButtons);
    let action = handle_home_panel_key(&mut p, &open_project(), &press(Key::Up));
    assert_eq!(action, HomeAction::Nothing);
    assert_eq!(p.focus, WelcomeFocus::InstallButton);
}

#[test]
fn verbose_paths_toggle_is_focusable_with_arrows_and_enter() {
    let context = open_project();
    let mut p = panel(WelcomeFocus::CreateInput);
    for focus in [
        WelcomeFocus::BuildButton,
        WelcomeFocus::InstallButton,
        WelcomeFocus::DeleteProjectButton,
    ] {
        p.focus = focus;
        handle_home_panel_key(&mut p, &context, &press(Key::Up));
        assert_eq!(p.focus, WelcomeFocus::VerbosePathsToggle);
        handle_home_panel_key(&mut p, &context, &press(Key::Down));
        assert_eq!(p.focus, WelcomeFocus::InstallButton);
    }
    p.focus = WelcomeFocus::VerbosePathsToggle;
    let action = handle_home_panel_key(&mut p, &context, &press(Key::Enter));
    assert_eq!(action, HomeAction::VerbosePathsToggled);
    assert!(p.verbose_paths);
    assert_eq!(verbose_paths_status(p.verbose_paths), "verbose paths enabled");
}

#[test]
fn typing_a_project_name_does_not_trigger_shortcuts() {
    let mut p = panel(WelcomeFocus::CreateInput);
    p.input_editing = true;
    let action = handle_home_panel_key(&mut p, &open_project(), &press(Key::Char('q')));
    assert_eq!(action, HomeAction::TypeIntoInput);
    let action = handle_home_panel_key(&mut p, &open_project(), &press(Key::Char('1')));
    assert_eq!(action, HomeAction::TypeIntoInput);
    let action = handle_home_panel_key(&mut p, &open_project(), &press(Key::Esc));
    assert_eq!(action, HomeAction::ClearStatus);
    assert!(!p.input_editing);
    let action = handle_home_panel_key(&mut p, &open_project(), &press(Key::Esc));
    assert_eq!(action, HomeAction::Quit);
}

#[test]
fn enter_on_the_name_input_submits_only_a_name() {
    let mut context = open_project();
    let mut p = panel(WelcomeFocus::CreateInput);
    assert_eq!(handle_home_panel_key(&mut p, &context, &press(Key::Enter)), HomeAction::ClearStatus);
    assert!(p.input_editing);
    context.create_input = "   ".to_string();
    assert_eq!(handle_home_panel_key(&mut p, &context, &press(Key::Enter)), HomeAction::ClearStatus);
    assert!(!p.input_editing);
    context.create_input = "icons".to_string();
    handle_home_panel_key(&mut p, &context, &press(Key::Enter));
    assert_eq!(handle_home_panel_key(&mut p, &context, &press(Key::Enter)), HomeAction::SubmitCreate);
}

#[test]
fn digit_shortcuts_open_the_creation_popup() {
    let mut p = panel(WelcomeFocus::ProjectList);
    let action = handle_home_panel_key(&mut p, &open_project(), &press(Key::Char('3')));
    assert_eq!(action, HomeAction::StartCreation { kind: HomeCreationKind::AnimatedGlyph, announce: true });
    assert_eq!(
        creation_shortcut_status(HomeCreationKind::Grid),
        "create grid: drop one image, Enter for tweaking, then configure grid"
    );
    let mut no_project = open_project();
    no_project.has_active_project = false;
    no_project.active_project_index = None;
    assert_eq!(handle_home_panel_key(&mut p, &no_project, &press(Key::Char('3'))), HomeAction::Nothing);
}

#[test]
fn project_switch_blocks_all_but_quit() {
    let mut context = open_project();
    context.project_switch_in_progress = true;
    let mut p = panel(WelcomeFocus::ProjectList);
    assert_eq!(handle_home_panel_key(&mut p, &context, &press(Key::Down)), HomeAction::ProjectSwitchBusy);
    assert_eq!(p.focus, WelcomeFocus::ProjectList);
    assert_eq!(handle_home_panel_key(&mut p, &context, &press(Key::Char('q'))), HomeAction::Quit);
}

#[test]
fn project_list_enter_opens_renames_or_refuses() {
    let context = HomeContext {
        projects_malformed: vec![false, true, false],
        active_project_index: Some(0),
        has_active_project: true,
        active_project_can_be_deleted: false,
        installed_font_rows: Vec::new(),
        project_switch_in_progress: false,
        create_input: String::new(),
    };
    let mut p = panel(WelcomeFocus::ProjectList);
    assert_eq!(handle_home_panel_key(&mut p, &context, &press(Key::Enter)), HomeAction::RenameActiveProject);
    handle_home_panel_key(&mut p, &context, &press(Key::Down));
    assert_eq!(handle_home_panel_key(&mut p, &context, &press(Key::Enter)), HomeAction::MalformedProject);
    handle_home_panel_key(&mut p, &context, &press(Key::Char('j')));
    assert_eq!(handle_home_panel_key(&mut p, &context, &press(Key::Enter)), HomeAction::SwitchProject(2));
    handle_home_panel_key(&mut p, &context, &press(Key::Down));
    assert_eq!(p.focus, WelcomeFocus::CreateInput);
}

#[test]
fn installed_font_rows_are_walked_row_by_row() {
    let mut context = open_project();
    context.installed_font_rows = vec![3, 2];
    let mut p = panel(WelcomeFocus::CreateInput);
    handle_home_panel_key(&mut p, &context, &press(Key::Down));
    assert_eq!(p.focus, WelcomeFocus::InstalledFontList);
    assert_eq!((p.selected_installed_font, p.installed_font_sub_index), (0, 0));
    handle_home_panel_key(&mut p, &context, &press(Key::Right));
    assert!(p.uninstall_focus);
    assert_eq!(
        handle_home_panel_key(&mut p, &context, &press(Key::Enter)),
        HomeAction::UninstallSelectedFont
    );
    handle_home_panel_key(&mut p, &context, &press(Key::Down));
    assert!(!p.uninstall_focus);
    assert_eq!(p.installed_font_sub_index, 1);
    handle_home_panel_key(&mut p, &context, &press(Key::Down));
    handle_home_panel_key(&mut p, &context, &press(Key::Down));
    assert_eq!((p.selected_installed_font, p.installed_font_sub_index), (1, 0));
    handle_home_panel_key(&mut p, &context, &press(Key::Up));
    assert_eq!((p.selected_installed_font, p.installed_font_sub_index), (0, 2));
    assert_eq!(
        handle_home_panel_key(&mut p, &context, &press(Key::Enter)),
        HomeAction::CopyInstalledRow { font: 0, sub: 2 }
    );
}

#[test]
fn installed_rows_copy_path_samples_then_animations() {
    let blocks = vec!["AB".to_string(), "CD".to_string()];
    let animations = vec!["XY".to_string()];
    assert_eq!(installed_row_copy_content("/fonts/a.ttf", &blocks, &animations, 0), "/fonts/a.ttf");
    assert_eq!(installed_row_copy_content("/fonts/a.ttf", &blocks, &animations, 2), "CD");
    assert_eq!(installed_row_copy_content("/fonts/a.ttf", &blocks, &animations, 3), "XY");
    assert_eq!(installed_row_copy_content("/fonts/a.ttf", &blocks, &animations, 4), "");
    assert_eq!(installed_row_copy_id(1, 0, 2), "1-path");
    assert_eq!(installed_row_copy_id(1, 2, 2), "1-sample-1");
    assert_eq!(installed_row_copy_id(1, 3, 2), "1-animation-0");
}

#[test]
fn creation_launcher_lights_the_focused_button() {
    let buttons = creation_launcher_buttons(HomeLauncherFocus::CreateGrid, true);
    let expect: Vec<(String, bool)> = vec![
        (" Create glyph ".to_string(), false),
        (" Create grid ".to_string(), true),
        (" Create animated glyph ".to_string(), false),
        (" Create animated grid glyph ".to_string(), false),
    ];
    assert_eq!(buttons, expect);
    assert!(creation_launcher_buttons(HomeLauncherFocus::CreateGrid, false).iter().all(|(_, lit)| !lit));
}
