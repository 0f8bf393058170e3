use petiglyph_tui::footer::{footer_spans, header_tabs, FooterSpan, FooterTone};
use petiglyph_tui::shell::FontTaskKind;
use petiglyph_tui::popups::{delete_confirmation_buttons, delete_confirmation_question, first_install_notice_lines, status_from_error, ConfirmButtonLook};
use petiglyph_tui::welcome_text::{project_row_spans, WelcomeTone};
use petiglyph_tui::welcome_text::{
        delete_button_look, glyph_count_label, install_button_label, install_button_look,
        installed_fonts_found_line, show_add_images_warning, switch_notice_text, verbose_switch_label,
        CardButtonLook,
    };
use petiglyph_tui::glyph_rows::{
        animation_frame_row, animation_parent_row, composition_child_row, composition_parent_row,
        glyph_list_title, single_glyph_row, RowTone,
    };
use petiglyph_tui::glyph_rows::preview_edit_line;
use petiglyph_tui::config_keys::{grayscale_options_are_default, AnimationImportSettingsState};
use petiglyph_tui::config_keys::animation_import_processing_options;
use petiglyph_tui::controls::{Key, KeyPress};
use petiglyph_tui::creation_preview::{
    composition_tile_indices, creation_preview_source, creation_preview_title, preview_glyph_index,
};
use petiglyph_tui::glyph_list_keys::{
    animation_deleted_status, animation_to_delete, handle_glyph_list_key, GlyphListAction, GlyphListState,
    GlyphRowFacts, GlyphsFocus,
};
use petiglyph_tui::home_panel::WelcomeFocus;
use petiglyph_tui::key_routing::{rename_key_action, route_key, AppView, KeyRoute, RenameKeyAction, RouteContext};
use petiglyph_tui::manifest_edit::{apply_default_composition, clear_composition, set_selected_animation_fps};
use petiglyph_tui::model::{
    AnimationDef, AnimationType, BleedLevel, CompositionDef, CompositionTileInfo, GlyphPreviewControl,
    GrayscaleOptions, HomeCreationKind, InteractiveGlyph, PreprocessedGlyph, RuntimeConfig,
};
use petiglyph_tui::selection::animation_threshold_summary_label;

fn key(code: Key) -> KeyPress {
    KeyPress { code, ctrl: false, keypad: false }
}

fn list(focus: GlyphsFocus, selected: usize) -> GlyphListState {
    GlyphListState {
        focus,
        control: GlyphPreviewControl::Threshold,
        selected,
        selecting_for_grid: false,
        selecting_for_frames: false,
    }
}

fn facts(rows: usize) -> GlyphRowFacts {
    GlyphRowFacts {
        row_count: rows,
        is_child: false,
        has_source: true,
        supports_threshold: true,
        supports_fps: false,
        supports_invert: true,
        threshold: Some(100),
        fps: None,
        has_active_project: true,
        busy: false,
    }
}

fn glyph(parent: &str, tile: Option<(usize, usize)>, threshold: u8) -> InteractiveGlyph {
    InteractiveGlyph {
        glyph: PreprocessedGlyph {
            source_path: format!("/p/icons/{parent}"),
            source_key: parent.to_string(),
            source_parent_key: parent.to_string(),
            glyph_name: "g".to_string(),
            width: 1,
            height: 1,
            coverage: vec![0],
            image_fingerprint: String::new(),
            composition_tile: tile.map(|(row, col)| CompositionTileInfo {
                rows: 2,
                cols: 2,
                row,
                col,
                horizontal_bleed: BleedLevel::Off,
                vertical_bleed: BleedLevel::Off,
            }),
        },
        saved_threshold: None,
        working_threshold: threshold,
        saved_invert: false,
        working_invert: false,
    }
}

fn animation(name: &str, frames: &[&str], fps: u8) -> AnimationDef {
    AnimationDef {
        name: name.to_string(),
        animation_type: AnimationType::Standard,
        fps,
        frames: frames.iter().map(|f| f.to_string()).collect(),
        rows: None,
        cols: None,
        horizontal_bleed: None,
        vertical_bleed: None,
        grayscale_processing: None,
    }
}

fn config(animations: Vec<AnimationDef>) -> RuntimeConfig {
    RuntimeConfig {
        project_dir: "/p".to_string(),
        project_id: "p".to_string(),
        input_dir: "/p/icons".to_string(),
        out_dir: "/p/build".to_string(),
        font_name: "Petiglyph".to_string(),
        glyph_size: 8,
        base_threshold: 64,
        threshold_overrides: Vec::new(),
        invert_overrides: Vec::new(),
        compositions: Vec::new(),
        animations,
        codepoint_start: 0x10_0000,
    }
}

#[test]
fn list_selection_moves_and_stops_at_the_ends() {
    let f = facts(3);
    let r = handle_glyph_list_key(list(GlyphsFocus::List, 1), f, &key(Key::Down));
    assert_eq!(r.state.selected, 2);
    let r = handle_glyph_list_key(r.state, f, &key(Key::Char('j')));
    assert_eq!(r.state.selected, 2);
    let r = handle_glyph_list_key(list(GlyphsFocus::List, 0), f, &key(Key::Up));
    assert_eq!(r.state.focus, GlyphsFocus::InstallButton);
    let r = handle_glyph_list_key(r.state, f, &key(Key::Down));
    assert_eq!(r.state.focus, GlyphsFocus::List);
    assert_eq!(r.action, GlyphListAction::Idle);
}

#[test]
fn preview_controls_are_stepped_through_left_to_right() {
    let f = facts(3);
    let r = handle_glyph_list_key(list(GlyphsFocus::List, 0), f, &key(Key::Right));
    assert_eq!(r.state.focus, GlyphsFocus::Preview);
    assert_eq!(r.state.control, GlyphPreviewControl::Threshold);
    // The row offers no fps control: Right goes on to invert, and stops there.
    let r = handle_glyph_list_key(r.state, f, &key(Key::Char('l')));
    assert_eq!(r.state.control, GlyphPreviewControl::Invert);
    let r = handle_glyph_list_key(r.state, f, &key(Key::Right));
    assert_eq!(r.state.control, GlyphPreviewControl::Invert);
    let r = handle_glyph_list_key(r.state, f, &key(Key::Left));
    assert_eq!(r.state.control, GlyphPreviewControl::Threshold);
    let r = handle_glyph_list_key(r.state, f, &key(Key::Left));
    assert_eq!(r.state.focus, GlyphsFocus::List);
}

#[test]
fn preview_values_saturate() {
    let mut f = facts(1);
    let mut s = list(GlyphsFocus::Preview, 0);
    f.threshold = Some(255);
    assert_eq!(handle_glyph_list_key(s, f, &key(Key::Up)).action, GlyphListAction::SetThreshold(255));
    assert_eq!(handle_glyph_list_key(s, f, &key(Key::PageDown)).action, GlyphListAction::SetThreshold(245));
    f.threshold = Some(4);
    assert_eq!(handle_glyph_list_key(s, f, &key(Key::PageDown)).action, GlyphListAction::SetThreshold(0));
    assert_eq!(handle_glyph_list_key(s, f, &key(Key::PageUp)).action, GlyphListAction::SetThreshold(14));
    f.supports_fps = true;
    s.control = GlyphPreviewControl::Fps;
    f.fps = Some(30);
    assert_eq!(handle_glyph_list_key(s, f, &key(Key::Up)).action, GlyphListAction::SetFps(30));
    f.fps = Some(1);
    assert_eq!(handle_glyph_list_key(s, f, &key(Key::Down)).action, GlyphListAction::SetFps(1));
    s.control = GlyphPreviewControl::Invert;
    assert_eq!(handle_glyph_list_key(s, f, &key(Key::Enter)).action, GlyphListAction::ToggleInvert);
}

#[test]
fn grid_tiles_keep_their_parent_threshold() {
    let mut f = facts(2);
    f.is_child = true;
    let r = handle_glyph_list_key(list(GlyphsFocus::List, 1), f, &key(Key::Left));
    assert_eq!(r.state.focus, GlyphsFocus::List);
    assert_eq!(
        r.status.as_deref(),
        Some("grid tile thresholds are disabled; edit the grid parent instead")
    );
}

#[test]
fn escape_backs_out_one_level_at_a_time() {
    let f = facts(2);
    let mut s = list(GlyphsFocus::Preview, 0);
    s.selecting_for_grid = true;
    s.selecting_for_frames = true;
    let r = handle_glyph_list_key(s, f, &key(Key::Esc));
    assert!(!r.state.selecting_for_grid);
    assert_eq!(r.status.as_deref(), Some("grid selection canceled"));
    let r = handle_glyph_list_key(r.state, f, &key(Key::Esc));
    assert!(!r.state.selecting_for_frames);
    assert_eq!(r.action, GlyphListAction::CancelFramePicking);
    assert_eq!(r.status.as_deref(), Some("animation selection canceled"));
    let r = handle_glyph_list_key(r.state, f, &key(Key::Esc));
    assert_eq!(r.state.focus, GlyphsFocus::List);
    let r = handle_glyph_list_key(r.state, f, &key(Key::Esc));
    assert_eq!(r.action, GlyphListAction::Quit);
}

#[test]
fn list_commands_and_keypad_aliases() {
    let mut f = facts(2);
    let s = list(GlyphsFocus::List, 0);
    let keypad_k = KeyPress { code: Key::Char('k'), ctrl: false, keypad: true };
    assert_eq!(handle_glyph_list_key(s, f, &keypad_k).action, GlyphListAction::StepThreshold(true));
    let keypad_m = KeyPress { code: Key::Char('m'), ctrl: false, keypad: true };
    assert_eq!(handle_glyph_list_key(s, f, &keypad_m).action, GlyphListAction::StepThreshold(false));
    assert_eq!(handle_glyph_list_key(s, f, &key(Key::Char('='))).action, GlyphListAction::StepThreshold(true));
    assert_eq!(handle_glyph_list_key(s, f, &key(Key::Char('c'))).action, GlyphListAction::ApplyDefaultComposition);
    assert_eq!(handle_glyph_list_key(s, f, &key(Key::Char('C'))).action, GlyphListAction::ClearComposition);
    assert_eq!(handle_glyph_list_key(s, f, &key(Key::Char('D'))).action, GlyphListAction::DeleteAnimation);
    assert_eq!(handle_glyph_list_key(s, f, &key(Key::Char('r'))).action, GlyphListAction::RemoveThresholdOverride);
    assert_eq!(handle_glyph_list_key(s, f, &key(Key::Char('i'))).action, GlyphListAction::Install);
    assert_eq!(handle_glyph_list_key(s, f, &key(Key::Char('R'))).action, GlyphListAction::Rescan);
    assert_eq!(handle_glyph_list_key(s, f, &key(Key::Enter)).action, GlyphListAction::ToggleExpansion);
    f.busy = true;
    let r = handle_glyph_list_key(s, f, &key(Key::Char('R')));
    assert_eq!(r.action, GlyphListAction::Idle);
    assert_eq!(r.status.as_deref(), Some("a background task is in progress; wait before rescanning"));
    let r = handle_glyph_list_key(list(GlyphsFocus::InstallButton, 0), f, &key(Key::Char(' ')));
    assert_eq!(r.action, GlyphListAction::InstallFromButton);
}

#[test]
fn picking_a_grid_source_opens_the_grid_popup() {
    let mut s = list(GlyphsFocus::List, 0);
    s.selecting_for_grid = true;
    let r = handle_glyph_list_key(s, facts(1), &key(Key::Enter));
    assert_eq!(r.action, GlyphListAction::OpenGridConfig);
    assert!(!r.state.selecting_for_grid);
    assert_eq!(
        r.status.as_deref(),
        Some("Configure grid: use arrows to change rows/cols, Right to Create")
    );
    let mut f = facts(1);
    f.is_child = true;
    let r = handle_glyph_list_key(s, f, &key(Key::Enter));
    assert!(r.state.selecting_for_grid);
    assert_eq!(
        r.status.as_deref(),
        Some("Select a standalone glyph or composition parent (children cannot be selected)")
    );
}

#[test]
fn delete_picks_the_row_animation_or_the_first_user_of_the_source() {
    let animations = vec![animation("walk", &["a.png"], 8), animation("run", &["b.png", "a.png"], 8)];
    assert_eq!(animation_to_delete(&animations, Some(1), None), Ok(Some("run".to_string())));
    assert_eq!(animation_to_delete(&animations, Some(5), Some("a.png")), Ok(None));
    assert_eq!(animation_to_delete(&animations, None, Some("a.png")), Ok(Some("walk".to_string())));
    assert_eq!(animation_to_delete(&animations, None, Some("b.png")), Ok(Some("run".to_string())));
    assert_eq!(
        animation_to_delete(&animations, None, Some("c.png")),
        Err("no animation linked to selected glyph".to_string())
    );
    assert_eq!(animation_to_delete(&animations, None, None), Err("no glyph selected".to_string()));
    assert_eq!(animation_deleted_status("run"), "deleted animation `run`");
}

fn route_context(view: AppView) -> RouteContext {
    RouteContext {
        view,
        notice_open: false,
        deleting: false,
        editing: false,
        renaming: false,
        has_active_project: true,
    }
}

#[test]
fn keys_are_routed_to_the_panel_in_front() {
    let mut c = route_context(AppView::Glyphs);
    assert_eq!(route_key(c, Key::Down), KeyRoute::Glyphs);
    assert_eq!(route_key(c, Key::Char('v')), KeyRoute::ToggleVerbosePaths);
    assert_eq!(
        route_key(c, Key::Tab),
        KeyRoute::SwitchPanel { view: AppView::Welcome, welcome_focus: Some(WelcomeFocus::InstallButton), close_grid: false }
    );
    assert_eq!(
        route_key(c, Key::BackTab),
        KeyRoute::SwitchPanel { view: AppView::Welcome, welcome_focus: Some(WelcomeFocus::InstalledFontList), close_grid: false }
    );
    assert_eq!(
        route_key(c, Key::Char('1')),
        KeyRoute::SwitchPanel { view: AppView::Welcome, welcome_focus: Some(WelcomeFocus::InstallButton), close_grid: true }
    );
    c.view = AppView::Welcome;
    assert_eq!(
        route_key(c, Key::Tab),
        KeyRoute::SwitchPanel { view: AppView::Glyphs, welcome_focus: None, close_grid: false }
    );
    c.editing = true;
    assert_eq!(route_key(c, Key::Char('2')), KeyRoute::Welcome);
    assert_eq!(route_key(c, Key::Char('v')), KeyRoute::Welcome);
    c.deleting = true;
    assert_eq!(route_key(c, Key::Tab), KeyRoute::Welcome);
    c.notice_open = true;
    assert_eq!(route_key(c, Key::Tab), KeyRoute::FirstInstallNotice);
}

#[test]
fn tab_twice_comes_back() {
    let c = route_context(AppView::Glyphs);
    let KeyRoute::SwitchPanel { view, .. } = route_key(c, Key::Tab) else { panic!("no switch") };
    let back = RouteContext { view, ..c };
    assert_eq!(
        route_key(back, Key::Tab),
        KeyRoute::SwitchPanel { view: AppView::Glyphs, welcome_focus: None, close_grid: false }
    );
}

#[test]
fn rename_keys() {
    assert_eq!(rename_key_action(Key::Esc, false), RenameKeyAction::Cancel);
    assert_eq!(rename_key_action(Key::Enter, false), RenameKeyAction::Confirm);
    assert_eq!(rename_key_action(Key::Char('a'), true), RenameKeyAction::Edit);
    assert_eq!(rename_key_action(Key::Char('/'), false), RenameKeyAction::Ignore);
    assert_eq!(rename_key_action(Key::Backspace, false), RenameKeyAction::Edit);
    assert_eq!(rename_key_action(Key::Tab, true), RenameKeyAction::Ignore);
}

#[test]
fn creation_preview_follows_the_workflow() {
    let imports = vec!["a.png".to_string(), "b.png".to_string()];
    let picked = vec!["f1.png".to_string(), "f2.png".to_string(), "f3.png".to_string()];
    assert_eq!(
        creation_preview_source(HomeCreationKind::Glyph, None, &imports, None, &picked, 0),
        Some("b.png".to_string())
    );
    assert_eq!(
        creation_preview_source(HomeCreationKind::Glyph, Some("a.png"), &imports, None, &picked, 0),
        Some("a.png".to_string())
    );
    assert_eq!(
        creation_preview_source(HomeCreationKind::Grid, None, &imports, Some("g.png"), &picked, 0),
        Some("g.png".to_string())
    );
    assert_eq!(
        creation_preview_source(HomeCreationKind::AnimatedGlyph, None, &imports, None, &picked, 4),
        Some("f2.png".to_string())
    );
    assert_eq!(
        creation_preview_source(HomeCreationKind::AnimatedGridGlyph, None, &imports, None, &Vec::new(), 4),
        None
    );
    assert_eq!(creation_preview_title("sprites/walk.png"), "Source: walk.png");
}

#[test]
fn creation_preview_prefers_the_whole_glyph() {
    let glyphs = vec![
        glyph("x.png", None, 1),
        glyph("g.png", Some((0, 0)), 2),
        glyph("g.png", None, 3),
        glyph("g.png", Some((0, 1)), 4),
        glyph("t.png", Some((0, 0)), 5),
    ];
    assert_eq!(preview_glyph_index(&glyphs, "g.png"), Some(2));
    assert_eq!(preview_glyph_index(&glyphs, "t.png"), Some(4));
    assert_eq!(preview_glyph_index(&glyphs, "none.png"), None);
    assert_eq!(composition_tile_indices(&glyphs, "g.png"), vec![1, 3]);
}

#[test]
fn frame_rate_edits_reach_manifest_and_project() {
    let mut manifest = vec![animation("walk", &["a.png"], 8)];
    let mut project = vec![animation("walk", &["a.png"], 8), animation("run", &["b.png"], 8)];
    let status = set_selected_animation_fps(&mut manifest, &mut project, Some(0), 45);
    assert_eq!(status, "updated animation `walk` fps -> 45");
    assert_eq!(manifest[0].fps, 30);
    assert_eq!(project[0].fps, 30);
    let status = set_selected_animation_fps(&mut manifest, &mut project, Some(1), 12);
    assert_eq!(status, "animation not found: `run`");
    assert_eq!(project[1].fps, 8);
    let status = set_selected_animation_fps(&mut manifest, &mut project, None, 12);
    assert_eq!(status, "no animation selected");
    let status = set_selected_animation_fps(&mut manifest, &mut project, Some(7), 12);
    assert_eq!(status, "no animation selected");
}

#[test]
fn grids_are_added_and_removed_from_the_list() {
    let grid = CompositionDef { rows: 3, cols: 1, horizontal_bleed: BleedLevel::Off, vertical_bleed: BleedLevel::Off };
    let config = vec![("b.png".to_string(), grid)];
    let mut manifest = config.clone();
    let (saved, status) = apply_default_composition(&mut manifest, &config, true, Some("a.png"));
    assert!(saved);
    assert_eq!(status, "created composition for a.png: 2x2 (edit [compositions] in petiglyph.toml for custom sizes)");
    assert_eq!(manifest.len(), 2);
    let added = manifest.iter().find(|(k, _)| k == "a.png").map(|(_, v)| *v);
    assert_eq!(
        added,
        Some(CompositionDef { rows: 2, cols: 2, horizontal_bleed: BleedLevel::Weak, vertical_bleed: BleedLevel::Off })
    );
    let (saved, status) = apply_default_composition(&mut manifest, &config, true, Some("b.png"));
    assert!(!saved);
    assert_eq!(status, "composition already exists for b.png; press C to remove it first");
    let (saved, status) = apply_default_composition(&mut manifest, &config, false, Some("a.png"));
    assert!(!saved);
    assert_eq!(status, "create a project in Home or relaunch with --manifest before composing");
    let (saved, status) = clear_composition(&mut manifest, &config, true, Some("b.png"));
    assert!(saved);
    assert_eq!(status, "removed composition for b.png");
    assert!(manifest.iter().all(|(k, _)| k != "b.png"));
    let (saved, status) = clear_composition(&mut manifest, &config, true, Some("z.png"));
    assert!(!saved);
    assert_eq!(status, "no composition configured for z.png");
    let (_, status) = clear_composition(&mut manifest, &config, true, None);
    assert_eq!(status, "no glyph selected");
}

#[test]
fn animation_threshold_label_shows_the_shared_value() {
    let glyphs = vec![glyph("a.png", None, 90), glyph("b.png", None, 90), glyph("c.png", None, 40)];
    let shared = animation("walk", &["a.png", "b.png"], 8);
    let mixed = animation("run", &["a.png", "c.png"], 8);
    let cfg = config(vec![shared.clone(), mixed.clone()]);
    assert_eq!(animation_threshold_summary_label(&glyphs, &cfg, &shared), "90");
    assert_eq!(animation_threshold_summary_label(&glyphs, &cfg, &mixed), "var. threshold");
    // A frame without a glyph works at the project's base threshold.
    let unloaded = animation("idle", &["z.png"], 8);
    assert_eq!(animation_threshold_summary_label(&glyphs, &cfg, &unloaded), "64");
}

#[test]
fn default_tones_are_recognised() {
    let mut settings = AnimationImportSettingsState::default();
    assert!(grayscale_options_are_default(settings.grayscale_options));
    settings.grayscale_options = GrayscaleOptions { brightness: 0, contrast: 5, gamma_percent: 100 };
    assert!(!grayscale_options_are_default(settings.grayscale_options));
    let processing = animation_import_processing_options(&settings);
    assert!(processing.grayscale_enabled);
    assert_eq!(processing.grayscale, settings.grayscale_options);
}

#[test]
fn project_rows_show_state_and_path() {
    let row = project_row_spans(true, true, None, "Mine", None, None, Some("/p/petiglyph.toml"));
    let texts: Vec<(&str, WelcomeTone)> = row.iter().map(|s| (s.text.as_str(), s.tone)).collect();
    assert_eq!(
        texts,
        vec![
            ("> ", WelcomeTone::Selected),
            ("[active] ", WelcomeTone::Selected),
            ("Mine", WelcomeTone::Selected),
            ("  ", WelcomeTone::Selected),
            ("/p/petiglyph.toml", WelcomeTone::Selected),
        ]
    );
    let row = project_row_spans(false, false, None, "Other", Some(Some("|")), Some("bad"), None);
    let texts: Vec<(&str, WelcomeTone)> = row.iter().map(|s| (s.text.as_str(), s.tone)).collect();
    assert_eq!(
        texts,
        vec![
            ("  ", WelcomeTone::Muted),
            ("[found ] ", WelcomeTone::Muted),
            ("Other", WelcomeTone::Plain),
            ("  |", WelcomeTone::Warning),
            (" loading...", WelcomeTone::Notice),
        ]
    );
    let row = project_row_spans(false, true, Some("Ren_"), "Mine", None, Some("bad"), Some("/p"));
    let texts: Vec<(&str, WelcomeTone)> = row.iter().map(|s| (s.text.as_str(), s.tone)).collect();
    assert_eq!(
        texts,
        vec![
            ("  ", WelcomeTone::Muted),
            ("[active] ", WelcomeTone::Accent),
            ("Ren_", WelcomeTone::Field),
            (" [renaming...]", WelcomeTone::Warning),
        ]
    );
    let row = project_row_spans(false, true, None, "Mine", None, Some("manifest has errors"), None);
    assert_eq!(row.len(), 4);
    assert_eq!(row[2].tone, WelcomeTone::Strong);
    assert_eq!(row[3].text, "  manifest has errors");
}

#[test]
fn current_project_card_text() {
    assert_eq!(installed_fonts_found_line(1), "Found 1 installed petiglyph font.");
    assert_eq!(installed_fonts_found_line(0), "Found 0 installed petiglyph fonts.");
    assert_eq!(installed_fonts_found_line(12), "Found 12 installed petiglyph fonts.");
    assert_eq!(glyph_count_label(true, Some(7), 3), "Glyphs: 7");
    assert_eq!(glyph_count_label(true, None, 3), "Glyphs: 3");
    assert_eq!(glyph_count_label(false, Some(7), 3), "Glyphs: n/a");
    assert!(show_add_images_warning(true, false, false, 0));
    assert!(!show_add_images_warning(true, true, false, 0));
    assert!(!show_add_images_warning(true, false, false, 2));
    assert_eq!(install_button_label(Some("|"), "Install"), " | Installing... ");
    assert_eq!(install_button_label(None, "Reinstall"), " Reinstall ");
    assert_eq!(install_button_look(false, false, false, true), CardButtonLook::Disabled);
    assert_eq!(install_button_look(true, true, true, true), CardButtonLook::Task);
    assert_eq!(install_button_look(true, true, false, true), CardButtonLook::Disabled);
    assert_eq!(install_button_look(true, false, false, true), CardButtonLook::Focused);
    assert_eq!(install_button_look(true, false, false, false), CardButtonLook::Idle);
    assert_eq!(delete_button_look(true, false, true), CardButtonLook::DangerFocused);
    assert_eq!(delete_button_look(true, false, false), CardButtonLook::Danger);
    assert_eq!(delete_button_look(false, false, true), CardButtonLook::Disabled);
    assert_eq!(verbose_switch_label(true), " Verbose: ON ");
    assert_eq!(verbose_switch_label(false), " Verbose: OFF ");
    assert_eq!(switch_notice_text("a", "b"), " Switched project: a -> b ");
}

fn row_texts(row: &[petiglyph_tui::glyph_rows::RowSpan]) -> String {
    row.iter().map(|s| s.text.as_str()).collect::<Vec<_>>().concat()
}

#[test]
fn glyph_list_rows_read_as_on_screen() {
    let row = animation_parent_row(true, "walk", AnimationType::Grid, 12, 3, "gray OFF", "var. threshold");
    assert_eq!(row_texts(&row), "[-]  @ walk (Grid, 12 fps, 3 frames, gray OFF, th var. threshold)");
    assert_eq!(row[4].tone, RowTone::Strong);
    let row = animation_frame_row(true, 0, None, "f.png");
    assert_eq!(row_texts(&row), " +    f1 missing f.png");
    let row = animation_frame_row(false, 9, Some("U+100001"), "f.png");
    assert_eq!(row_texts(&row), "      f10 U+100001 f.png");
    let row = single_glyph_row(true, true, "U+100000", "star");
    assert_eq!(row_texts(&row), " * U+100000 star");
    let row = single_glyph_row(false, true, "U+100000", "star");
    assert_eq!(row_texts(&row), " + U+100000 star");
    let row = composition_parent_row(false, false, "big.png", 2, 3);
    assert_eq!(row_texts(&row), "  [+] big.png (grid 2x3)");
    let row = composition_child_row(false, "U+100002", 0, 1, "big_r1_c2");
    assert_eq!(row_texts(&row), "      U+100002 [r1,c2] big_r1_c2");
    assert_eq!(row_texts(&glyph_list_title(true, true)), " Glyphs  select a glyph for the grid ");
    assert_eq!(row_texts(&glyph_list_title(false, true)), " Glyphs  select frames (Space toggle) ");
    assert_eq!(row_texts(&glyph_list_title(false, false)), " Glyphs ");
}

#[test]
fn preview_value_buttons() {
    let line = preview_edit_line(true, true, true, Some(64), None, Some(true), Some(GlyphPreviewControl::Fps));
    assert_eq!(row_texts(&line), "  Edit  Threshold: 64   FPS: -   Invert: on ");
    assert_eq!(line[1].tone, RowTone::Button);
    assert_eq!(line[3].tone, RowTone::ButtonFocused);
    assert_eq!(line[5].tone, RowTone::Button);
    let line = preview_edit_line(false, false, false, None, None, None, Some(GlyphPreviewControl::Threshold));
    assert_eq!(row_texts(&line), "  Edit  Threshold: - ");
    assert_eq!(line[1].tone, RowTone::Button);
}

#[test]
fn popup_texts() {
    assert_eq!(delete_confirmation_question(Some("mine")), "Delete project `mine`?");
    assert_eq!(delete_confirmation_question(None), "Delete project `current project`?");
    assert_eq!(delete_confirmation_buttons(0), (ConfirmButtonLook::Selected, ConfirmButtonLook::Idle));
    assert_eq!(delete_confirmation_buttons(1), (ConfirmButtonLook::Idle, ConfirmButtonLook::Danger));
    let lines = first_install_notice_lines(Some("kitty"));
    assert_eq!(lines.len(), 8);
    assert_eq!(lines[1], "Restart all kitty terminals to load the newly installed glyphs.");
    assert_eq!(lines[7], "Press Enter, Esc, or Space to dismiss this message.");
    let lines = first_install_notice_lines(None);
    assert_eq!(lines[1], "Restart all terminals to load the newly installed glyphs.");
    assert_eq!(status_from_error(None, "boom"), "boom");
    assert_eq!(status_from_error(Some("rebuild needed".to_string()), "boom"), "rebuild needed");
}

#[test]
fn footer_shows_keys_status_and_task() {
    let texts = |v: Vec<FooterSpan>| v.into_iter().map(|s| (s.text, s.tone)).collect::<Vec<_>>();
    let spans = texts(footer_spans(true, AppView::Welcome, None, None));
    assert_eq!(
        spans,
        vec![
            (" Enter ".to_string(), FooterTone::Key),
            ("confirm  ".to_string(), FooterTone::Plain),
            (" Esc ".to_string(), FooterTone::Key),
            ("cancel".to_string(), FooterTone::Plain),
        ]
    );
    let task = FontTaskKind::UninstallInstalled { path: "/f.ttf".to_string() };
    let spans = texts(footer_spans(false, AppView::Glyphs, Some("saved"), Some(("|", &task))));
    let joined: String = spans.iter().map(|(t, _)| t.as_str()).collect();
    assert_eq!(joined, " Tab panel   ↑/↓ glyph   Enter expand   q quit | saved | | removing font...");
    assert_eq!(spans[9], ("saved".to_string(), FooterTone::Alert));
    assert_eq!(spans[11].1, FooterTone::Alert);
    let spans = texts(footer_spans(false, AppView::Welcome, None, Some(("-", &FontTaskKind::Install))));
    assert_eq!(spans[3].0, "navigate  ");
    assert_eq!(spans[9], ("- installing font...".to_string(), FooterTone::Busy));
    assert_eq!(header_tabs(AppView::Glyphs), ([" 1 Home ", " 2 Glyphs "], 1));
}
