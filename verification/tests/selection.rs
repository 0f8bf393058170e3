use petiglyph_tui::model::{AnimationDef, AnimationType, InteractiveGlyph, PreprocessedGlyph, RuntimeConfig, VisibleGlyphRow};
use petiglyph_tui::selection::{
    adjusted_threshold, animation_has_non_uniform_frame_invert, animation_has_non_uniform_frame_thresholds,
    animation_uniform_frame_threshold, selected_animation_index, selected_row_fps_value, selected_row_invert_value,
    selected_row_threshold_value, selected_source_parent_key, selected_threshold_sources, selected_visible_glyph_index,
};
use petiglyph_tui::model::HomeCreationKind;
use petiglyph_tui::threshold_edit::{
    apply_invert_to_sources, apply_threshold_to_sources, creation_workflow_threshold_sources, invert_saved_status,
    override_removed_status, threshold_saved_status,
};

fn glyph(parent: &str, threshold: u8, invert: bool) -> InteractiveGlyph {
    InteractiveGlyph {
        glyph: PreprocessedGlyph {
            source_path: format!("/p/icons/{parent}"),
            source_key: parent.to_string(),
            source_parent_key: parent.to_string(),
            glyph_name: "g".to_string(),
            width: 1,
            height: 1,
            coverage: vec![0],
            image_fingerprint: String::new(),
            composition_tile: None,
        },
        saved_threshold: None,
        working_threshold: threshold,
        saved_invert: invert,
        working_invert: invert,
    }
}

fn animation(frames: &[&str]) -> AnimationDef {
    AnimationDef {
        name: "run".to_string(),
        animation_type: AnimationType::Standard,
        fps: 12,
        frames: frames.iter().map(|f| f.to_string()).collect(),
        rows: None,
        cols: None,
        horizontal_bleed: None,
        vertical_bleed: None,
        grayscale_processing: None,
    }
}

fn config(animations: Vec<AnimationDef>) -> RuntimeConfig {
    RuntimeConfig {
        project_dir: "/p".to_string(),
        project_id: "p".to_string(),
        input_dir: "/p/icons".to_string(),
        out_dir: "/p/build".to_string(),
        font_name: "Petiglyph".to_string(),
        glyph_size: 8,
        base_threshold: 64,
        threshold_overrides: vec![("c.png".to_string(), 70)],
        invert_overrides: Vec::new(),
        compositions: Vec::new(),
        animations,
        codepoint_start: 0x10_0000,
    }
}

#[test]
fn selected_rows_name_their_sources() {
    let glyphs = vec![glyph("a.png", 50, false), glyph("b.png", 60, true)];
    let animations = vec![animation(&["b.png", "a.png", "b.png"])];
    let single = VisibleGlyphRow::Single { glyph_idx: 1 };
    assert_eq!(selected_source_parent_key(Some(&single), &glyphs), Some("b.png".to_string()));
    assert_eq!(selected_threshold_sources(Some(&single), &glyphs, &animations), Some(vec!["b.png".to_string()]));
    let parent = VisibleGlyphRow::AnimationParent { animation_idx: 0 };
    assert_eq!(
        selected_threshold_sources(Some(&parent), &glyphs, &animations),
        Some(vec!["a.png".to_string(), "b.png".to_string()])
    );
    assert_eq!(selected_source_parent_key(Some(&parent), &glyphs), None);
    assert_eq!(selected_animation_index(Some(&parent)), Some(0));
    let frame = VisibleGlyphRow::AnimationFrame {
        animation_idx: 0,
        frame_idx: 0,
        source_key: "sheet.png#compose:2x2:0:1".to_string(),
        glyph_idx: Some(0),
    };
    assert_eq!(selected_visible_glyph_index(Some(&frame)), Some(0));
    let tile = VisibleGlyphRow::CompositionChild { glyph_idx: 0, source_key: "sheet.png".to_string(), row: 0, col: 0 };
    assert_eq!(selected_threshold_sources(Some(&tile), &glyphs, &animations), None);
    assert_eq!(selected_threshold_sources(None, &glyphs, &animations), None);
}

#[test]
fn selected_values_come_from_the_first_source() {
    let glyphs = vec![glyph("a.png", 50, false), glyph("b.png", 60, true)];
    let sources = vec!["b.png".to_string(), "a.png".to_string()];
    assert_eq!(selected_row_threshold_value(Some(&sources), &glyphs, 64), Some(60));
    assert_eq!(selected_row_invert_value(Some(&sources), &glyphs), Some(true));
    let missing = vec!["z.png".to_string()];
    assert_eq!(selected_row_threshold_value(Some(&missing), &glyphs, 64), Some(64));
    assert_eq!(selected_row_invert_value(Some(&missing), &glyphs), Some(false));
    assert_eq!(selected_row_threshold_value(None, &glyphs, 64), None);
    let animations = vec![animation(&["a.png"])];
    assert_eq!(selected_row_fps_value(Some(0), &animations), Some(12));
    assert_eq!(selected_row_fps_value(Some(3), &animations), None);
}

#[test]
fn animation_thresholds_are_uniform_or_not() {
    let glyphs = vec![glyph("a.png", 64, false), glyph("b.png", 64, true)];
    let uniform = animation(&["a.png", "b.png"]);
    let c = config(vec![uniform.clone()]);
    assert_eq!(animation_uniform_frame_threshold(&glyphs, &c, &uniform), Some(64));
    assert!(!animation_has_non_uniform_frame_thresholds(&glyphs, &uniform));
    assert!(animation_has_non_uniform_frame_invert(&glyphs, &uniform));
    let mixed = animation(&["a.png", "c.png"]);
    assert_eq!(animation_uniform_frame_threshold(&glyphs, &c, &mixed), None);
    assert!(!animation_has_non_uniform_frame_thresholds(&glyphs, &mixed));
    assert_eq!(animation_uniform_frame_threshold(&glyphs, &c, &animation(&[])), None);
}

#[test]
fn threshold_steps_saturate() {
    assert_eq!(adjusted_threshold(250, 10), 255);
    assert_eq!(adjusted_threshold(3, -5), 0);
    assert_eq!(adjusted_threshold(64, -1), 63);
}

#[test]
fn applied_thresholds_reach_glyphs_and_overrides() {
    let mut overrides = vec![("a.png".to_string(), 90)];
    let mut glyphs = vec![glyph("a.png", 90, false), glyph("b.png", 64, false), glyph("a.png", 90, false)];
    apply_threshold_to_sources(&mut overrides, &mut glyphs, &vec!["a.png".to_string()], 64, 64);
    assert!(overrides.is_empty());
    assert_eq!(glyphs[0].working_threshold, 64);
    assert_eq!(glyphs[0].saved_threshold, None);
    assert_eq!(glyphs[2].working_threshold, 64);
    assert_eq!(threshold_saved_status(64, 64), "cleared threshold override(s): now using base threshold 64");
    apply_threshold_to_sources(&mut overrides, &mut glyphs, &vec!["b.png".to_string()], 80, 64);
    assert_eq!(overrides, vec![("b.png".to_string(), 80)]);
    assert_eq!(glyphs[1].saved_threshold, Some(80));
    assert_eq!(glyphs[0].working_threshold, 64);
    assert_eq!(threshold_saved_status(80, 64), "saved threshold override: 80");
}

#[test]
fn applied_invert_reaches_glyphs_and_overrides() {
    let mut overrides: Vec<(String, bool)> = Vec::new();
    let mut glyphs = vec![glyph("a.png", 64, false), glyph("b.png", 64, false)];
    apply_invert_to_sources(&mut overrides, &mut glyphs, &vec!["a.png".to_string()], true);
    assert_eq!(overrides, vec![("a.png".to_string(), true)]);
    assert!(glyphs[0].working_invert && glyphs[0].saved_invert);
    assert!(!glyphs[1].working_invert);
    apply_invert_to_sources(&mut overrides, &mut glyphs, &vec!["a.png".to_string()], false);
    assert!(overrides.is_empty());
    assert!(!glyphs[0].working_invert);
    assert_eq!(invert_saved_status(true), "saved invert override: on");
    assert_eq!(override_removed_status(64), "removed threshold override(s): now using base threshold 64");
}

#[test]
fn creation_thresholds_go_to_the_workflow_sources() {
    let recent = vec!["a.png".to_string()];
    let frames = vec!["f1.png".to_string(), "f2.png".to_string()];
    let grid = Some("sheet.png".to_string());
    assert_eq!(creation_workflow_threshold_sources(HomeCreationKind::Glyph, &recent, &grid, &frames), recent);
    assert_eq!(creation_workflow_threshold_sources(HomeCreationKind::Grid, &recent, &grid, &frames), vec!["sheet.png".to_string()]);
    assert!(creation_workflow_threshold_sources(HomeCreationKind::Grid, &recent, &None, &frames).is_empty());
    assert_eq!(creation_workflow_threshold_sources(HomeCreationKind::AnimatedGridGlyph, &recent, &grid, &frames), frames);
}

fn frame_glyph(parent: &str, threshold: u8, saved: Option<u8>, invert: bool) -> InteractiveGlyph {
    let mut g = glyph(parent, threshold, invert);
    g.glyph.coverage = vec![255];
    g.saved_threshold = saved;
    g
}

fn named_animation(name: &str, fps: u8, frames: &[&str]) -> AnimationDef {
    let mut a = animation(frames);
    a.name = name.to_string();
    a.fps = fps;
    a
}

#[test]
fn animation_parent_threshold_sources_include_all_frames_but_frame_row_is_specific() {
    let animations = vec![named_animation("run_anim", 8, &["f1.png", "f2.png"])];
    let glyphs = vec![frame_glyph("f1.png", 64, None, false), frame_glyph("f2.png", 64, None, false)];
    // With the animation expanded, the rows are the animation and its two frames.
    let rows = [
        VisibleGlyphRow::AnimationParent { animation_idx: 0 },
        VisibleGlyphRow::AnimationFrame {
            animation_idx: 0,
            frame_idx: 0,
            source_key: "f1.png".to_string(),
            glyph_idx: Some(0),
        },
        VisibleGlyphRow::AnimationFrame {
            animation_idx: 0,
            frame_idx: 1,
            source_key: "f2.png".to_string(),
            glyph_idx: Some(1),
        },
    ];
    assert_eq!(
        selected_threshold_sources(Some(&rows[0]), &glyphs, &animations),
        Some(vec!["f1.png".to_string(), "f2.png".to_string()])
    );
    assert_eq!(selected_threshold_sources(Some(&rows[1]), &glyphs, &animations), Some(vec!["f1.png".to_string()]));
    assert_eq!(selected_threshold_sources(Some(&rows[2]), &glyphs, &animations), Some(vec!["f2.png".to_string()]));
}

#[test]
fn animation_non_uniform_threshold_detection_tracks_frame_specific_overrides() {
    let animation = named_animation("blink_anim", 12, &["a.png", "b.png"]);
    let mut glyphs = vec![frame_glyph("a.png", 60, Some(60), false), frame_glyph("b.png", 72, Some(72), false)];
    assert!(animation_has_non_uniform_frame_thresholds(&glyphs, &animation));
    glyphs[1].working_threshold = 60;
    assert!(!animation_has_non_uniform_frame_thresholds(&glyphs, &animation));
}

#[test]
fn animation_non_uniform_invert_detection_tracks_frame_specific_overrides() {
    let animation = named_animation("blink_anim", 12, &["a.png", "b.png"]);
    let mut glyphs = vec![frame_glyph("a.png", 64, None, true), frame_glyph("b.png", 64, None, false)];
    assert!(animation_has_non_uniform_frame_invert(&glyphs, &animation));
    glyphs[1].working_invert = true;
    assert!(!animation_has_non_uniform_frame_invert(&glyphs, &animation));
}

#[test]
fn animated_creation_tweak_threshold_applies_to_all_selected_frames() {
    let selected = vec!["frame_1.png".to_string(), "frame_2.png".to_string()];
    let sources = creation_workflow_threshold_sources(HomeCreationKind::AnimatedGlyph, &Vec::new(), &None, &selected);
    let mut overrides: Vec<(String, u8)> = Vec::new();
    let mut glyphs = vec![glyph("frame_1.png", 64, false), glyph("frame_2.png", 64, false)];
    apply_threshold_to_sources(&mut overrides, &mut glyphs, &sources, 103, 64);
    let get = |k: &str| overrides.iter().find(|(key, _)| key == k).map(|(_, v)| *v);
    assert_eq!(get("frame_1.png"), Some(103));
    assert_eq!(get("frame_2.png"), Some(103));
    assert!(glyphs.iter().all(|glyph| glyph.working_threshold == 103 && glyph.saved_threshold == Some(103)));
}
