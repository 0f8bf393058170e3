use petiglyph_tui::tweak_text::{export_count_text, grayscale_knob_captions, grayscale_profile_text, tweak_button_caption, tweak_button_lit, tweak_threshold_text};
use petiglyph_tui::config_keys::GrayscaleKnobFocus;
use petiglyph_tui::config_keys::AnimationImportSettingsState;
use petiglyph_tui::controls::{Key, KeyPress};
use petiglyph_tui::import_settings_keys::handle_animation_import_settings_key;
use petiglyph_tui::model::{AnimationImportSettingsFocus, GrayscaleOptions, HomeCreationKind};

const ANIMATED: Option<HomeCreationKind> = Some(HomeCreationKind::AnimatedGlyph);

fn press(settings: &mut AnimationImportSettingsState, code: Key, frames: usize) -> (bool, Option<String>, bool) {
    let key = KeyPress { code, ctrl: false, keypad: false };
    let r = handle_animation_import_settings_key(settings, ANIMATED, 64, frames, false, &key);
    (r.handled, r.status, r.export_test_image)
}

#[test]
fn animated_home_workflow_grayscale_options_editor_commits_and_cancels() {
    let mut settings = AnimationImportSettingsState::default();
    for _ in 0..4 {
        press(&mut settings, Key::Left, 1);
    }
    assert_eq!(settings.focus, AnimationImportSettingsFocus::GrayscaleOptionsButton);
    press(&mut settings, Key::Enter, 1);
    assert!(settings.grayscale_editor.is_some(), "enter should open the editor");
    press(&mut settings, Key::Up, 1);
    press(&mut settings, Key::Right, 1);
    press(&mut settings, Key::Up, 1);
    let (handled, status, _) = press(&mut settings, Key::Esc, 1);
    assert!(handled);
    assert_eq!(status.as_deref(), Some("grayscale options edit canceled"));
    assert!(settings.grayscale_editor.is_none(), "editor should close on esc");
    assert_eq!(settings.grayscale_options, GrayscaleOptions { brightness: 0, contrast: 0, gamma_percent: 100 }, "esc should restore prior grayscale options");

    press(&mut settings, Key::Enter, 1);
    press(&mut settings, Key::Up, 1);
    press(&mut settings, Key::Right, 1);
    press(&mut settings, Key::Up, 1);
    press(&mut settings, Key::Right, 1);
    press(&mut settings, Key::Up, 1);
    let (_, status, _) = press(&mut settings, Key::Enter, 1);
    assert_eq!(status.as_deref(), Some("grayscale options updated"));
    let options = settings.grayscale_options;
    assert_eq!(options.brightness, 1);
    assert_eq!(options.contrast, 1);
    assert_eq!(options.gamma_percent, 105);
}

#[test]
fn animated_home_workflow_export_frame_count_knob_adjusts_on_export_focus() {
    let mut settings = AnimationImportSettingsState::default();
    assert_eq!(settings.export_frame_count, 5);
    press(&mut settings, Key::Left, 1);
    assert_eq!(settings.focus, AnimationImportSettingsFocus::ExportTestImageButton);
    let (_, status, _) = press(&mut settings, Key::Up, 1);
    assert_eq!(settings.export_frame_count, 6);
    assert_eq!(status.as_deref(), Some("test-image export frame count set to 6"));
    press(&mut settings, Key::Down, 1);
    assert_eq!(settings.export_frame_count, 5);
    let (handled, _, export) = press(&mut settings, Key::Enter, 1);
    assert!(handled && export);
}

#[test]
fn animated_home_workflow_frames_focus_cycles_preview_frame_with_up_down() {
    let mut settings = AnimationImportSettingsState::default();
    press(&mut settings, Key::Left, 3);
    press(&mut settings, Key::Left, 3);
    assert_eq!(settings.focus, AnimationImportSettingsFocus::FramesButton);
    let (_, status, _) = press(&mut settings, Key::Up, 3);
    assert_eq!(settings.preview_frame_index, 1);
    assert_eq!(status.as_deref(), Some("preview frame 2/3"));
    press(&mut settings, Key::Down, 3);
    assert_eq!(settings.preview_frame_index, 0);
    press(&mut settings, Key::Down, 3);
    assert_eq!(settings.preview_frame_index, 2);
    let (_, status, _) = press(&mut settings, Key::Up, 0);
    assert_eq!(status.as_deref(), Some("import at least one animation frame first"));
}

#[test]
fn threshold_knob_saturates_and_reports_default() {
    let mut settings = AnimationImportSettingsState::default();
    settings.focus = AnimationImportSettingsFocus::Threshold;
    let (_, status, _) = press(&mut settings, Key::Char('k'), 1);
    assert_eq!(settings.threshold, 65);
    assert_eq!(status.as_deref(), Some("preview threshold set to 65 (custom)"));
    let (_, status, _) = press(&mut settings, Key::Char('j'), 1);
    assert_eq!(status.as_deref(), Some("preview threshold set to 64 (default)"));
    settings.threshold = 255;
    press(&mut settings, Key::Up, 1);
    assert_eq!(settings.threshold, 255);
}

#[test]
fn grayscale_toggle_and_unused_keys() {
    let mut settings = AnimationImportSettingsState::default();
    settings.focus = AnimationImportSettingsFocus::GrayscaleToggle;
    let (_, status, _) = press(&mut settings, Key::Enter, 1);
    assert!(!settings.grayscale_enabled);
    assert_eq!(status.as_deref(), Some("grayscale disabled for imported GIF/video frames"));
    settings.focus = AnimationImportSettingsFocus::Continue;
    assert_eq!(press(&mut settings, Key::Enter, 1), (false, None, false));
    assert_eq!(press(&mut settings, Key::Char('x'), 1), (false, None, false));
    let key = KeyPress { code: Key::Up, ctrl: false, keypad: false };
    let busy = handle_animation_import_settings_key(&mut settings, ANIMATED, 64, 1, true, &key);
    assert!(busy.handled && busy.status.is_none());
}

#[test]
fn animated_home_workflow_threshold_knob_adjusts_in_tweaking_step() {
    let mut settings = AnimationImportSettingsState::default();
    assert_eq!(settings.threshold, 64);
    press(&mut settings, Key::Left, 1);
    press(&mut settings, Key::Left, 1);
    press(&mut settings, Key::Left, 1);
    assert_eq!(settings.focus, AnimationImportSettingsFocus::Threshold);
    press(&mut settings, Key::Up, 1);
    assert_eq!(settings.threshold, 65);
    press(&mut settings, Key::Down, 1);
    assert_eq!(settings.threshold, 64);
}

#[test]
fn animated_home_workflow_grayscale_toggle_is_on_by_default_and_toggles_with_keys() {
    let mut settings = AnimationImportSettingsState::default();
    assert!(settings.grayscale_enabled, "grayscale should default to enabled for animated imports");
    for _ in 0..5 {
        press(&mut settings, Key::Left, 1);
    }
    assert_eq!(settings.focus, AnimationImportSettingsFocus::GrayscaleToggle);
    let (handled, _, _) = press(&mut settings, Key::Enter, 1);
    assert!(!settings.grayscale_enabled, "enter on grayscale toggle should disable grayscale");
    assert!(handled, "toggling grayscale should not leave the tweaking step");
    press(&mut settings, Key::Down, 1);
    assert!(settings.grayscale_enabled, "down on grayscale toggle should re-enable grayscale");
}

#[test]
fn tones_stay_within_their_ranges() {
    let mut settings = AnimationImportSettingsState::default();
    settings.focus = AnimationImportSettingsFocus::GrayscaleOptionsButton;
    press(&mut settings, Key::Enter, 1);
    for _ in 0..100 {
        press(&mut settings, Key::Up, 1);
    }
    press(&mut settings, Key::Right, 1);
    for _ in 0..100 {
        press(&mut settings, Key::Down, 1);
    }
    press(&mut settings, Key::Right, 1);
    for _ in 0..100 {
        press(&mut settings, Key::Up, 1);
    }
    press(&mut settings, Key::Enter, 1);
    assert_eq!(settings.grayscale_options, GrayscaleOptions { brightness: 80, contrast: -80, gamma_percent: 200 });
}

#[test]
fn tweaking_buttons_and_summaries() {
    let mut settings = AnimationImportSettingsState::default();
    let caption = |f, s: &AnimationImportSettingsState, kind| tweak_button_caption(f, s, kind, 64, 3, 0, 2);
    assert_eq!(caption(AnimationImportSettingsFocus::GrayscaleToggle, &settings, HomeCreationKind::Glyph), " Gray: ON ");
    assert_eq!(caption(AnimationImportSettingsFocus::GrayscaleOptionsButton, &settings, HomeCreationKind::Glyph), " Gray Options ");
    assert_eq!(caption(AnimationImportSettingsFocus::Threshold, &settings, HomeCreationKind::Glyph), " Th: 64 ");
    assert_eq!(caption(AnimationImportSettingsFocus::Continue, &settings, HomeCreationKind::Glyph), " Next ");
    assert_eq!(caption(AnimationImportSettingsFocus::Continue, &settings, HomeCreationKind::Grid), " Continue ");
    settings.preview_frame_index = 4;
    assert_eq!(caption(AnimationImportSettingsFocus::FramesButton, &settings, HomeCreationKind::AnimatedGlyph), " Frames: 2/3 ");
    assert_eq!(
        tweak_button_caption(AnimationImportSettingsFocus::FramesButton, &settings, HomeCreationKind::AnimatedGlyph, 64, 0, 0, 1),
        " Frames: - "
    );
    assert_eq!(
        tweak_button_caption(AnimationImportSettingsFocus::Continue, &settings, HomeCreationKind::Glyph, 64, 0, 1, 2),
        " Finish "
    );
    settings.threshold = 70;
    settings.grayscale_options = GrayscaleOptions { brightness: -5, contrast: 0, gamma_percent: 105 };
    assert_eq!(caption(AnimationImportSettingsFocus::Threshold, &settings, HomeCreationKind::Glyph), " Th: 70 * ");
    assert_eq!(caption(AnimationImportSettingsFocus::GrayscaleOptionsButton, &settings, HomeCreationKind::Glyph), " Gray Options * ");
    assert_eq!(grayscale_profile_text(settings.grayscale_options), "B -5, C +0, G 1.05 (modified*)");
    assert_eq!(
        grayscale_profile_text(GrayscaleOptions { brightness: 0, contrast: 0, gamma_percent: 100 }),
        "B +0, C +0, G 1.00 (default)"
    );
    assert_eq!(tweak_threshold_text(70, 64), "Threshold: 70 (custom*)");
    assert_eq!(tweak_threshold_text(64, 64), "Threshold: 64 (default)");
    assert_eq!(export_count_text(5), "Export count: 5 (focus Export + Up/Down)  ");

    settings.focus = AnimationImportSettingsFocus::Threshold;
    assert!(tweak_button_lit(AnimationImportSettingsFocus::Threshold, &settings));
    assert!(!tweak_button_lit(AnimationImportSettingsFocus::GrayscaleOptionsButton, &settings));
    settings.focus = AnimationImportSettingsFocus::GrayscaleOptionsButton;
    press(&mut settings, Key::Enter, 1);
    assert!(tweak_button_lit(AnimationImportSettingsFocus::GrayscaleOptionsButton, &settings));
    let editor = settings.grayscale_editor.expect("editor open");
    let (b, c, g, focus) = grayscale_knob_captions(&editor);
    assert_eq!((b.as_str(), c.as_str(), g.as_str()), (" Brightness: -5 ", " Contrast: +0 ", " Gamma: 1.05 "));
    assert_eq!(focus, GrayscaleKnobFocus::Brightness);
}
