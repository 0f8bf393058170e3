use petiglyph_tui::animation::{animation_frame_source_for_preview, glyph_matches_animation_frame_source};
use petiglyph_tui::codepoints::{
    installed_animation_blocks_for_definition, installed_animation_source_block, SourceCodepoints,
};
use petiglyph_tui::installed::{installed_animation_frame_index, prune_static_sample_blocks};
use petiglyph_tui::keys::emitted_composition_cols;
use petiglyph_tui::layout::{scrollbar_thumb_geometry, visible_window_bounds};
use petiglyph_tui::model::{
    AnimationDef, AnimationPreview, AnimationType, BleedLevel, CompositionTileInfo,
    InteractiveGlyph, PreprocessedGlyph, VisibleGlyphRow,
};
use petiglyph_tui::preview::{composition_preview_lines_stable_frame, preview_lines};
use petiglyph_tui::shell::step_animation_preview;

const MS: u64 = 1_000_000;

fn pairs(entries: &[(&str, &str)]) -> SourceCodepoints {
    SourceCodepoints::from_pairs(
        entries
            .iter()
            .map(|(k, v)| (k.to_string(), v.to_string()))
            .collect(),
    )
}

#[test]
fn installed_animation_preview_advances_one_frame_at_a_time() {
    let started_at = 5_000u64;

    assert_eq!(installed_animation_frame_index(4, 3, started_at, started_at), 0);
    assert_eq!(installed_animation_frame_index(4, 3, started_at, started_at + 250), 1);
    assert_eq!(installed_animation_frame_index(4, 3, started_at, started_at + 500), 2);
    assert_eq!(installed_animation_frame_index(4, 3, started_at, started_at + 750), 0);
}

#[test]
fn animation_preview_step_uses_accumulated_timing_without_threshold_jump() {
    let animation = AnimationDef {
        name: "run".to_string(),
        animation_type: AnimationType::Standard,
        fps: 20,
        frames: vec!["a.png".to_string(), "b.png".to_string(), "c.png".to_string()],
        rows: None,
        cols: None,
        horizontal_bleed: None,
        vertical_bleed: None,
        grayscale_processing: None,
    };
    let started_at = 1_000 * MS;
    let mut preview = AnimationPreview {
        animation_name: animation.name.clone(),
        frame_index: 0,
        last_frame_at: started_at,
    };

    for tick in [48u64, 96, 144, 192, 240, 288, 336, 384, 432, 480] {
        step_animation_preview(&mut preview, &animation, started_at + tick * MS);
    }
    assert_eq!(
        preview.frame_index, 0,
        "20fps over 480ms should advance exactly 9 frames (mod 3 -> 0) with accumulator timing"
    );

    let mut faster = animation.clone();
    faster.fps = 21;
    let mut faster_preview = AnimationPreview {
        animation_name: faster.name.clone(),
        frame_index: 0,
        last_frame_at: started_at,
    };
    for tick in [48u64, 96, 144, 192, 240, 288, 336, 384, 432, 480] {
        step_animation_preview(&mut faster_preview, &faster, started_at + tick * MS);
    }
    assert_eq!(
        faster_preview.frame_index, 1,
        "21fps over 480ms should only be one frame ahead of 20fps in this window"
    );
}

#[test]
fn installed_animation_source_block_remaps_unambiguous_compose_row_col() {
    let by_source = pairs(&[
        ("strip.png#compose:1x4:0:0", "U+100000"),
        ("strip.png#compose:1x4:0:1", "U+100001"),
    ]);
    let block0 = installed_animation_source_block(&by_source, "strip.png#compose:1x4:0:0");
    let block1 = installed_animation_source_block(&by_source, "strip.png#compose:1x4:0:1");

    assert_eq!(block0, Some(char::from_u32(0x100000).unwrap().to_string()));
    assert_eq!(block1, Some(char::from_u32(0x100001).unwrap().to_string()));
}

#[test]
fn installed_grid_animation_blocks_use_emitted_composition_columns() {
    let by_source = pairs(&[
        ("strip.png#compose:2x4:0:0", "U+100000"),
        ("strip.png#compose:2x4:0:1", "U+100001"),
        ("strip.png#compose:2x4:0:2", "U+100002"),
        ("strip.png#compose:2x4:0:3", "U+100003"),
        ("strip.png#compose:2x4:1:0", "U+100004"),
        ("strip.png#compose:2x4:1:1", "U+100005"),
        ("strip.png#compose:2x4:1:2", "U+100006"),
        ("strip.png#compose:2x4:1:3", "U+100007"),
    ]);
    let animation = AnimationDef {
        name: "walk".to_string(),
        animation_type: AnimationType::Grid,
        fps: 8,
        frames: vec!["strip.png".to_string()],
        rows: Some(2),
        cols: Some(2),
        horizontal_bleed: Some(BleedLevel::Weak),
        vertical_bleed: Some(BleedLevel::Off),
        grayscale_processing: None,
    };

    let blocks = installed_animation_blocks_for_definition(&animation, &by_source);

    assert_eq!(blocks.len(), 1);
    assert_eq!(
        blocks[0],
        format!(
            "{}{}{}{}\n{}{}{}{}",
            char::from_u32(0x100000).unwrap(),
            char::from_u32(0x100001).unwrap(),
            char::from_u32(0x100002).unwrap(),
            char::from_u32(0x100003).unwrap(),
            char::from_u32(0x100004).unwrap(),
            char::from_u32(0x100005).unwrap(),
            char::from_u32(0x100006).unwrap(),
            char::from_u32(0x100007).unwrap()
        )
    );
}

#[test]
fn glyph_matches_animation_frame_source_requires_matching_grid_dims() {
    let glyph = InteractiveGlyph {
        glyph: PreprocessedGlyph {
            source_path: "icons/strip.png".to_string(),
            source_key: "strip.png#compose:1x4:0:1".to_string(),
            source_parent_key: "strip.png".to_string(),
            glyph_name: "strip_r1_c2".to_string(),
            width: 8,
            height: 8,
            coverage: vec![0; 64],
            image_fingerprint: "fnv1a64:test".to_string(),
            composition_tile: None,
        },
        working_threshold: 64,
        saved_threshold: None,
        saved_invert: false,
        working_invert: false,
    };

    assert!(!glyph_matches_animation_frame_source(&glyph, "strip.png#compose:1x2:0:1"));
    assert!(glyph_matches_animation_frame_source(&glyph, "strip.png#compose:1x4:0:1"));
}

#[test]
fn installed_animation_source_block_does_not_remap_ambiguous_compose_row_col() {
    let by_source = pairs(&[
        ("strip.png#compose:1x4:0:1", "U+100001"),
        ("strip.png#compose:1x8:0:1", "U+1000AA"),
    ]);
    let block = installed_animation_source_block(&by_source, "strip.png#compose:1x2:0:1");
    assert_eq!(block, None);
}

#[test]
fn prune_static_sample_blocks_removes_animation_chars_from_dense_blocks() {
    let a = char::from_u32(0x100000).expect("valid char");
    let b = char::from_u32(0x100001).expect("valid char");
    let c = char::from_u32(0x100002).expect("valid char");
    let sample_blocks = vec![format!("{a}{b}{c}")];
    let animation_frames = vec![format!("{b}")];

    let filtered = prune_static_sample_blocks(sample_blocks, &animation_frames);

    assert_eq!(filtered, vec![format!("{a}{c}")]);
}

#[test]
fn prune_static_sample_blocks_drops_exact_animation_frame_blocks() {
    let a = char::from_u32(0x100000).expect("valid char");
    let b = char::from_u32(0x100001).expect("valid char");
    let sample_blocks = vec![format!("{a}"), format!("{b}")];
    let animation_frames = vec![format!("{b}")];

    let filtered = prune_static_sample_blocks(sample_blocks, &animation_frames);

    assert_eq!(filtered, vec![format!("{a}")]);
}

#[test]
fn visible_window_bounds_center_and_clamp_selection() {
    assert_eq!(visible_window_bounds(0, 0, 5), (0, 0));
    assert_eq!(visible_window_bounds(5, 0, 10), (0, 5));
    assert_eq!(visible_window_bounds(20, 0, 5), (0, 5));
    assert_eq!(visible_window_bounds(20, 10, 5), (8, 13));
    assert_eq!(visible_window_bounds(20, 99, 5), (15, 20));
}

#[test]
fn scrollbar_thumb_geometry_tracks_start_and_end_positions() {
    assert_eq!(scrollbar_thumb_geometry(0, 10, 0), (0, 0));
    assert_eq!(scrollbar_thumb_geometry(5, 10, 0), (0, 0));
    assert_eq!(scrollbar_thumb_geometry(100, 10, 0), (0, 1));
    assert_eq!(scrollbar_thumb_geometry(100, 10, 90), (9, 1));
}

#[test]
fn standard_preview_preserves_aspect_ratio_in_square_viewport() {
    let mut coverage = vec![0; 32 * 64];
    for y in 15..49 {
        for x in 0..32 {
            coverage[y * 32 + x] = 255;
        }
    }
    let glyph = PreprocessedGlyph {
        source_path: "codex-1.png".to_string(),
        source_key: "codex-1.png".to_string(),
        source_parent_key: "codex-1.png".to_string(),
        glyph_name: "codex_1".to_string(),
        width: 32,
        height: 64,
        coverage,
        image_fingerprint: "test".to_string(),
        composition_tile: None,
    };

    let rendered = preview_lines(&glyph, 64, false, 37, 37);

    assert_eq!(rendered.len(), 35);
    assert!(
        rendered.iter().all(|line| line.chars().count() == 70),
        "aspect-fit preview should preserve width while reducing height to avoid stretching"
    );
}

#[test]
fn stable_grid_animation_preview_uses_emitted_composition_columns() {
    let glyphs = (0..2)
        .flat_map(|row| {
            (0..4).map(move |col| InteractiveGlyph {
                glyph: PreprocessedGlyph {
                    source_path: "icons/strip.png".to_string(),
                    source_key: format!("strip.png#compose:2x4:{row}:{col}"),
                    source_parent_key: "strip.png".to_string(),
                    glyph_name: format!("strip_r{}_c{}", row + 1, col + 1),
                    width: 1,
                    height: 1,
                    coverage: vec![255],
                    image_fingerprint: "fnv1a64:test".to_string(),
                    composition_tile: Some(CompositionTileInfo {
                        rows: 2,
                        cols: emitted_composition_cols(2),
                        row,
                        col,
                        horizontal_bleed: BleedLevel::Weak,
                        vertical_bleed: BleedLevel::Off,
                    }),
                },
                working_threshold: 64,
                saved_threshold: None,
                saved_invert: false,
                working_invert: false,
            })
        })
        .collect::<Vec<_>>();
    let tile_refs = glyphs.iter().collect::<Vec<_>>();

    let lines = composition_preview_lines_stable_frame(
        &tile_refs,
        64,
        false,
        2,
        emitted_composition_cols(2),
        12,
        4,
    );
    let rendered = lines.concat();

    assert!(!rendered.contains("unavailable"));
    assert!(
        rendered.chars().any(|ch| !ch.is_whitespace()),
        "grid animation preview should render visible cells"
    );
}

#[test]
fn animation_frame_row_preview_is_pinned_to_selected_frame() {
    let animation = AnimationDef {
        name: "walk".to_string(),
        animation_type: AnimationType::Standard,
        fps: 8,
        frames: vec!["f_01.png".to_string(), "f_02.png".to_string(), "f_03.png".to_string()],
        rows: None,
        cols: None,
        horizontal_bleed: None,
        vertical_bleed: None,
        grayscale_processing: None,
    };
    let preview = AnimationPreview {
        animation_name: "walk".to_string(),
        frame_index: 2,
        last_frame_at: 0,
    };
    let parent_row = VisibleGlyphRow::AnimationParent { animation_idx: 0 };
    let frame_row = VisibleGlyphRow::AnimationFrame {
        animation_idx: 0,
        frame_idx: 1,
        source_key: "f_02.png".to_string(),
        glyph_idx: Some(1),
    };

    assert_eq!(
        animation_frame_source_for_preview(Some(&parent_row), &animation, Some(&preview)),
        Some("f_03.png".to_string()),
        "animation parent rows should use the animated frame index"
    );
    assert_eq!(
        animation_frame_source_for_preview(Some(&frame_row), &animation, Some(&preview)),
        Some("f_02.png".to_string()),
        "animation frame rows should preview the selected frame only"
    );
}
