use petiglyph_tui::import_files::{
    decide_dropped_file, empty_drop_error, empty_drop_tally, record_import, DroppedFileCheck, ExistingImportPolicy,
};
use petiglyph_tui::model::{BleedLevel, CompositionTileInfo, InteractiveGlyph, PreprocessedGlyph};
use petiglyph_tui::natural::sort_source_keys_for_animation_frames;
use petiglyph_tui::preview::{composition_preview_lines, preview_lines_stable_frame};
use petiglyph_tui::shell::{copy_to_clipboard_with_runner, ClipboardProvider};

fn frame(width: u32, height: u32, on: impl Fn(u32, u32) -> bool) -> PreprocessedGlyph {
    let mut coverage = Vec::new();
    for y in 0..height {
        for x in 0..width {
            coverage.push(if on(x, y) { 255 } else { 0 });
        }
    }
    PreprocessedGlyph {
        source_path: "/p/icons/frame.png".to_string(),
        source_key: "frame.png".to_string(),
        source_parent_key: "frame.png".to_string(),
        glyph_name: "frame".to_string(),
        width,
        height,
        coverage,
        image_fingerprint: String::new(),
        composition_tile: None,
    }
}

// The 32 x 16 frames of the original test, fitted whole into the 16 x 16
// glyph square: the tall frame fills columns 4..12 top to bottom, the short
// one only rows 7..9 of them.
fn whole_frame_previews_share_one_scale() {
    let tall = frame(16, 16, |x, _| (4..12).contains(&x));
    let short = frame(16, 16, |x, y| (4..12).contains(&x) && (7..9).contains(&y));
    let tall_lines = preview_lines_stable_frame(&tall, 64, false, 32, 32);
    let short_lines = preview_lines_stable_frame(&short, 64, false, 32, 32);
    assert_eq!(
        tall_lines.len(),
        short_lines.len(),
        "animated workflow popup previews should scale from the whole animation frame, not each frame's active bounds"
    );
    assert!(
        tall_lines.len() > 16,
        "whole-frame preview should keep the reserved frame area instead of shrinking to active content"
    );
}

#[test]
fn animated_standard_workflow_popup_preview_uses_whole_frame_scale() {
    whole_frame_previews_share_one_scale();
}

#[test]
fn animated_grid_workflow_popup_preview_uses_whole_frame_scale() {
    whole_frame_previews_share_one_scale();
}

#[test]
fn composition_preview_keeps_the_tile_aspect() {
    let tile = InteractiveGlyph {
        glyph: PreprocessedGlyph {
            composition_tile: Some(CompositionTileInfo {
                rows: 1,
                cols: 1,
                row: 0,
                col: 0,
                horizontal_bleed: BleedLevel::Off,
                vertical_bleed: BleedLevel::Off,
            }),
            ..frame(40, 2, |_, _| true)
        },
        saved_threshold: None,
        working_threshold: 64,
        saved_invert: false,
        working_invert: false,
    };
    let lines = composition_preview_lines(&[&tile], 64, false, 1, 1, 10, 10);
    assert_eq!(lines, vec![format!("    {}", "██".repeat(9))]);
}

#[test]
fn drop_import_decisions_and_tallies() {
    let mut tally = empty_drop_tally();
    assert!(!decide_dropped_file(&mut tally, &DroppedFileCheck::Missing, ExistingImportPolicy::Rename));
    assert!(!decide_dropped_file(&mut tally, &DroppedFileCheck::NoFileName, ExistingImportPolicy::Rename));
    assert!(!decide_dropped_file(&mut tally, &DroppedFileCheck::Unsupported, ExistingImportPolicy::Rename));
    let same = DroppedFileCheck::Candidate { key: "a.png".to_string(), same_file: true, identical_copy: false };
    assert!(!decide_dropped_file(&mut tally, &same, ExistingImportPolicy::Rename));
    let copy = DroppedFileCheck::Candidate { key: "b.png".to_string(), same_file: false, identical_copy: true };
    assert!(decide_dropped_file(&mut tally, &copy, ExistingImportPolicy::Rename));
    assert!(!decide_dropped_file(&mut tally, &copy, ExistingImportPolicy::ReuseIdentical));
    record_import(&mut tally, "b-1.png".to_string(), true);
    record_import(&mut tally, "c.png".to_string(), false);
    assert_eq!(
        (tally.imported, tally.renamed, tally.skipped_existing, tally.skipped_unsupported, tally.skipped_missing),
        (2, 1, 2, 1, 2)
    );
    assert_eq!(tally.imported_source_keys, vec!["a.png", "b.png", "b-1.png", "c.png"]);
    assert_eq!(tally.created_source_keys, vec!["b-1.png", "c.png"]);
    assert_eq!(empty_drop_error(), "drop did not include readable file paths");
}

#[test]
fn clipboard_providers_are_tried_in_order() {
    let providers = vec![
        ClipboardProvider { command: "first", args: Vec::new() },
        ClipboardProvider { command: "second", args: Vec::new() },
        ClipboardProvider { command: "third", args: Vec::new() },
    ];
    let tried = std::cell::RefCell::new(Vec::new());
    let result = copy_to_clipboard_with_runner("x", &providers, |provider, _| {
        tried.borrow_mut().push(provider.command);
        if provider.command == "first" { Err("no".to_string()) } else { Ok(()) }
    });
    assert_eq!(result, Ok(()));
    assert_eq!(*tried.borrow(), vec!["first", "second"]);
}

#[test]
fn equal_frame_keys_keep_their_order() {
    let mut keys = vec![
        "b/Run_2.png".to_string(),
        "a/run_2.png".to_string(),
        "run_1.png".to_string(),
        "c/RUN_2.png".to_string(),
    ];
    sort_source_keys_for_animation_frames(&mut keys);
    assert_eq!(keys, vec!["run_1.png", "b/Run_2.png", "a/run_2.png", "c/RUN_2.png"]);
}
