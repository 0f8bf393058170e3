use petiglyph_tui::config_keys::{
    glyph_tweak_continue_label, glyph_tweak_progress_label, move_import_settings_focus,
    AnimationImportSettingsState,
};
use petiglyph_tui::controls::import_settings_visible_focuses;
use petiglyph_tui::model::{AnimationImportSettingsFocus, HomeCreationKind};

#[test]
fn glyph_creation_tweaking_visible_controls_fit_popup_row() {
    let controls = import_settings_visible_focuses(HomeCreationKind::Glyph);
    assert_eq!(
        controls,
        vec![
            AnimationImportSettingsFocus::GrayscaleToggle,
            AnimationImportSettingsFocus::GrayscaleOptionsButton,
            AnimationImportSettingsFocus::Threshold,
            AnimationImportSettingsFocus::Continue,
            AnimationImportSettingsFocus::Back,
            AnimationImportSettingsFocus::SkipAll,
        ]
    );
    let button_width = 18usize;
    let gap_width = 2usize;
    let rendered_width =
        controls.len() * button_width + controls.len().saturating_sub(1) * gap_width;
    assert!(
        rendered_width <= 118,
        "standard glyph tweak controls should fit inside the popup body"
    );
}

#[test]
fn glyph_creation_tweaking_focus_skips_hidden_animation_controls() {
    let mut settings = AnimationImportSettingsState {
        focus: AnimationImportSettingsFocus::Threshold,
        ..AnimationImportSettingsState::default()
    };

    move_import_settings_focus(&mut settings, HomeCreationKind::Glyph, 1);
    assert_eq!(settings.focus, AnimationImportSettingsFocus::Continue);
    move_import_settings_focus(&mut settings, HomeCreationKind::Glyph, 1);
    assert_eq!(settings.focus, AnimationImportSettingsFocus::Back);
    move_import_settings_focus(&mut settings, HomeCreationKind::Glyph, 1);
    assert_eq!(settings.focus, AnimationImportSettingsFocus::SkipAll);
    move_import_settings_focus(&mut settings, HomeCreationKind::Glyph, -1);
    assert_eq!(settings.focus, AnimationImportSettingsFocus::Back);
}

#[test]
fn glyph_creation_tweaking_progress_clamps_after_final_preview() {
    // Twenty queued sources, the index already past the last one.
    assert_eq!(glyph_tweak_progress_label(20, 20), "Image 20/20  ");
}

#[test]
fn glyph_creation_tweaking_single_preview_uses_finish_label() {
    assert_eq!(glyph_tweak_continue_label(0, 1), "Finish");
}

#[test]
fn glyph_tweak_progress_counts_from_one() {
    assert_eq!(glyph_tweak_progress_label(3, 0), "Image 1/3  ");
    assert_eq!(glyph_tweak_progress_label(3, 1), "Image 2/3  ");
    assert_eq!(glyph_tweak_progress_label(0, 0), "Image 1/1  ");
}

#[test]
fn glyph_tweak_continue_label_is_next_before_the_last_source() {
    assert_eq!(glyph_tweak_continue_label(0, 3), "Next");
    assert_eq!(glyph_tweak_continue_label(1, 3), "Next");
    assert_eq!(glyph_tweak_continue_label(2, 3), "Finish");
    assert_eq!(glyph_tweak_continue_label(7, 3), "Finish");
}

#[test]
fn focus_moves_stop_at_both_ends() {
    let mut settings = AnimationImportSettingsState {
        focus: AnimationImportSettingsFocus::GrayscaleToggle,
        ..AnimationImportSettingsState::default()
    };
    move_import_settings_focus(&mut settings, HomeCreationKind::Glyph, -1);
    assert_eq!(settings.focus, AnimationImportSettingsFocus::GrayscaleToggle);
    settings.focus = AnimationImportSettingsFocus::SkipAll;
    move_import_settings_focus(&mut settings, HomeCreationKind::Glyph, 1);
    assert_eq!(settings.focus, AnimationImportSettingsFocus::SkipAll);
}

#[test]
fn hidden_focus_moves_from_continue() {
    // Glyph creation shows no frames button: the move starts from Continue.
    let mut settings = AnimationImportSettingsState {
        focus: AnimationImportSettingsFocus::FramesButton,
        ..AnimationImportSettingsState::default()
    };
    move_import_settings_focus(&mut settings, HomeCreationKind::Glyph, 1);
    assert_eq!(settings.focus, AnimationImportSettingsFocus::Back);
}

#[test]
fn default_import_settings_match_a_fresh_import() {
    let settings = AnimationImportSettingsState::default();
    assert_eq!(settings.focus, AnimationImportSettingsFocus::Continue);
    assert!(settings.grayscale_enabled);
    assert_eq!(settings.threshold, 64);
    assert_eq!(settings.export_frame_count, 5);
    assert_eq!(settings.preview_frame_index, 0);
    assert!(settings.grayscale_editor.is_none());
}
