use petiglyph_tui::config_text::{animation_config_captions, animation_config_shows_grid_fields, animation_field_lit, grid_config_captions};
use petiglyph_tui::config_keys::{AnimationConfig, AnimationConfigFocus};
use petiglyph_tui::creation_steps::{creation_enter_hint, creation_headline, creation_steps, CreationStage};
use petiglyph_tui::config_keys::GridConfigFocus;
use petiglyph_tui::creation_flow::{
    after_tweaking_status, after_tweaking_step, default_grid_config, import_step_enter, tweaking_step_enter,
    tweaking_step_status, AfterTweaking, ImportEnter, TweakEnter,
};
use petiglyph_tui::model::{AnimationImportSettingsFocus, AnimationType, BleedLevel, HomeCreationKind};

#[test]
fn import_enter_waits_then_asks_for_sources_then_tweaks() {
    let (step, status) = import_step_enter(HomeCreationKind::AnimatedGlyph, true, false, true);
    assert_eq!(step, ImportEnter::StillLoading);
    assert_eq!(status, "animation frames are still loading");
    let (step, status) = import_step_enter(HomeCreationKind::Glyph, false, true, true);
    assert_eq!(step, ImportEnter::StillLoading);
    assert_eq!(status, "images are still loading");
    let (step, status) = import_step_enter(HomeCreationKind::Grid, false, false, false);
    assert_eq!(step, ImportEnter::MissingSources);
    assert_eq!(status, "create grid: drop exactly one image in the popup, then press Enter");
    let (step, status) = import_step_enter(HomeCreationKind::Glyph, true, false, true);
    assert_eq!(step, ImportEnter::StartTweaking);
    assert_eq!(status, "tweak grayscale/threshold + preview in popup, then use Next until Finish");
}

#[test]
fn glyph_creation_tweaking_twentieth_next_finishes_without_extra_step() {
    let step = tweaking_step_enter(HomeCreationKind::Glyph, AnimationImportSettingsFocus::Continue, 20, 19, false);
    assert_eq!(step, TweakEnter::SaveAndFinish { source: 19 });
    assert_eq!(tweaking_step_status(step, 20), None);
}

#[test]
fn glyph_creation_tweaking_next_finishes_when_index_is_already_at_end() {
    let step = tweaking_step_enter(HomeCreationKind::Glyph, AnimationImportSettingsFocus::Continue, 1, 1, false);
    assert_eq!(step, TweakEnter::Finish);
}

#[test]
fn next_and_back_walk_the_previews() {
    let step = tweaking_step_enter(HomeCreationKind::Glyph, AnimationImportSettingsFocus::Threshold, 3, 0, false);
    assert_eq!(step, TweakEnter::SaveAndNext { source: 0, next: 1 });
    assert_eq!(tweaking_step_status(step, 3), Some("next preview (2/3)".to_string()));
    let step = tweaking_step_enter(HomeCreationKind::Glyph, AnimationImportSettingsFocus::Back, 3, 1, false);
    assert_eq!(step, TweakEnter::PreviousPreview { index: 0 });
    assert_eq!(tweaking_step_status(step, 3), Some("previous preview (1/3)".to_string()));
    let step = tweaking_step_enter(HomeCreationKind::Glyph, AnimationImportSettingsFocus::Back, 3, 0, false);
    assert_eq!(step, TweakEnter::AlreadyFirst);
    assert_eq!(tweaking_step_status(step, 3), Some("already at first preview".to_string()));
}

#[test]
fn glyph_creation_tweaking_skip_all_applies_defaults_to_remaining_images() {
    let step = tweaking_step_enter(HomeCreationKind::Glyph, AnimationImportSettingsFocus::SkipAll, 2, 0, false);
    assert_eq!(step, TweakEnter::SkipRemaining { from: 0 });
    assert_eq!(
        tweaking_step_status(step, 2),
        Some("skipped remaining previews with default settings".to_string())
    );
}

#[test]
fn grid_creation_tweaking_enter_on_threshold_advances_to_grid_config() {
    let step = tweaking_step_enter(HomeCreationKind::Grid, AnimationImportSettingsFocus::Threshold, 0, 0, false);
    assert_eq!(step, TweakEnter::Finish);
    let next = after_tweaking_step(HomeCreationKind::Grid, true, true, false, 0);
    assert_eq!(next, AfterTweaking::ConfigureGrid);
    assert_eq!(after_tweaking_status(next), Some("configure grid in popup: rows, cols, bleed, then Create Grid"));
    let config = default_grid_config("sheet.png".to_string());
    assert_eq!((config.rows, config.cols), (2, 2));
    assert_eq!(config.horizontal_bleed, BleedLevel::Weak);
    assert_eq!(config.vertical_bleed, BleedLevel::Off);
    assert_eq!(config.focus, GridConfigFocus::Rows);
}

#[test]
fn animated_creation_tweaking_enter_on_frames_advances_to_animation_config() {
    let next = after_tweaking_step(HomeCreationKind::AnimatedGridGlyph, true, false, false, 3);
    assert_eq!(next, AfterTweaking::ConfigureAnimation(AnimationType::Grid));
    assert_eq!(after_tweaking_status(next), Some("configure animated grid glyph in popup, then Create"));
    let next = after_tweaking_step(HomeCreationKind::AnimatedGlyph, true, false, false, 0);
    assert_eq!(next, AfterTweaking::MissingFrames);
    let next = after_tweaking_step(HomeCreationKind::AnimatedGlyph, true, false, true, 3);
    assert_eq!(next, AfterTweaking::FramesLoading);
    let next = after_tweaking_step(HomeCreationKind::Glyph, false, false, false, 0);
    assert_eq!(next, AfterTweaking::CompleteGlyphs { save_recent: false });
    assert_eq!(after_tweaking_status(next), None);
}

#[test]
fn home_workflow_enter_advances_import_to_tweaking_when_sources_exist() {
    // One frame is picked and nothing is loading.
    let (step, _) = import_step_enter(HomeCreationKind::AnimatedGlyph, false, false, true);
    assert_eq!(step, ImportEnter::StartTweaking);
}

fn step_texts(kind: HomeCreationKind, stage: CreationStage) -> Vec<(String, String, bool, bool, Option<String>)> {
    creation_steps(kind, stage)
        .into_iter()
        .map(|l| (l.number, l.label, l.lit, l.bright, l.marker))
        .collect()
}

#[test]
fn creation_steps_mark_the_current_step() {
    let s = step_texts(HomeCreationKind::Grid, CreationStage::Tweaking);
    assert_eq!(s.len(), 4);
    assert_eq!(s[0], (" 1 ".to_string(), " Import source image ".to_string(), false, false, Some("< done".to_string())));
    assert_eq!(
        s[1],
        (" 2 ".to_string(), " Tweak grayscale / threshold / preview ".to_string(), true, true, Some("< current".to_string()))
    );
    assert_eq!(
        s[2],
        (" 3 ".to_string(), " Configure rows, columns, bleed in popup ".to_string(), false, false, Some(String::new()))
    );
    assert_eq!(s[3], (" 4 ".to_string(), " Create grid and switch to Glyphs ".to_string(), false, false, None));
    let s = step_texts(HomeCreationKind::Glyph, CreationStage::Import);
    assert_eq!(s.len(), 3);
    assert_eq!(s[0].1, " Import source images ");
    assert_eq!(s[1].4, Some(String::new()));
    assert!(!s[1].3);
    assert_eq!(s[2].1, " Continue to Glyphs panel ");
    let s = step_texts(HomeCreationKind::AnimatedGridGlyph, CreationStage::ConfigureAnimation);
    assert_eq!(s[0].1, " Import frame media ");
    assert_eq!(s[1].4, Some("< done".to_string()));
    assert_eq!(s[2].4, Some("< current".to_string()));
    assert_eq!(s[3].1, " Create animation and switch to Glyphs ");
}

#[test]
fn creation_headlines_and_enter_hints() {
    assert_eq!(
        creation_headline(HomeCreationKind::AnimatedGlyph, CreationStage::Import),
        "Create animated glyph: drop, paste, or drag images/GIFs/videos in this popup."
    );
    assert_eq!(
        creation_headline(HomeCreationKind::Glyph, CreationStage::Import),
        "Create glyph: drop, paste, or drag files in this popup."
    );
    assert_eq!(
        creation_headline(HomeCreationKind::Grid, CreationStage::Tweaking),
        "Create grid: tweak grayscale/threshold with live preview."
    );
    assert_eq!(
        creation_headline(HomeCreationKind::Grid, CreationStage::ConfigureGrid),
        "Create grid: adjust rows/columns/bleed here, then activate Create Grid."
    );
    assert_eq!(
        creation_headline(HomeCreationKind::AnimatedGridGlyph, CreationStage::ConfigureAnimation),
        "Create animated grid glyph: configure in this popup, then create."
    );
    assert_eq!(creation_enter_hint(HomeCreationKind::Glyph, CreationStage::Tweaking, true), " finish and open Glyphs    ");
    assert_eq!(creation_enter_hint(HomeCreationKind::Glyph, CreationStage::Tweaking, false), " next preview    ");
    assert_eq!(creation_enter_hint(HomeCreationKind::Grid, CreationStage::Tweaking, true), " continue to next step    ");
    assert_eq!(creation_enter_hint(HomeCreationKind::Grid, CreationStage::Import, true), " continue to tweaking step    ");
    assert_eq!(creation_enter_hint(HomeCreationKind::Grid, CreationStage::ConfigureGrid, true), " continue / create grid    ");
}

#[test]
fn configuration_popup_captions() {
    let grid = default_grid_config("art/big.png".to_string());
    let (header, rows, cols, create) = grid_config_captions(&grid);
    assert_eq!(header, " Configuring grid for: big.png ");
    assert_eq!(rows, " Rows: 2 ");
    assert_eq!(cols, " Cols: 2 ");
    assert_eq!(create, " Create Grid ");
    let config = AnimationConfig {
        selected_frames: vec!["a.png".to_string(), "b.png".to_string()],
        animation_name: "walk".to_string(),
        animation_type: AnimationType::Grid,
        fps: 12,
        rows: 2,
        cols: 3,
        horizontal_bleed: BleedLevel::Weak,
        vertical_bleed: BleedLevel::Off,
        grayscale_processing: None,
        focus: AnimationConfigFocus::Cols,
    };
    let (header, name, fps, rows, cols, create) = animation_config_captions(&config, None);
    assert_eq!(header, " Configuring grid animation (frames: 2) ");
    assert_eq!(name, " Name: walk ");
    assert_eq!(fps, " FPS: 12 ");
    assert_eq!(rows, " Rows: 2 ");
    assert_eq!(cols, " Cols: 3 ");
    assert_eq!(create, " Create Animation ");
    let (_, _, _, _, _, create) = animation_config_captions(&config, Some("|"));
    assert_eq!(create, " Create Animation | ");
    assert!(animation_config_shows_grid_fields(&config));
    assert!(animation_field_lit(&config, AnimationConfigFocus::Cols));
    assert!(!animation_field_lit(&config, AnimationConfigFocus::Fps));
}
