use std::cmp::Ordering;

use petiglyph_tui::animation::{
    duplicate_source_key_for_grid_conflict, next_incremental_duplicate_destination,
    source_key_from_input_path, stem_without_trailing_numeric_suffixes,
};
use petiglyph_tui::config_keys::{handle_grid_config_key, GridConfig, GridConfigAction, GridConfigFocus};
use petiglyph_tui::controls::{next_bleed_level, previous_bleed_level, Key, KeyPress};
use petiglyph_tui::drop_paths::{collect_dropped_paths, decode_file_uri_path, percent_decode};
use petiglyph_tui::layout::{
    center_label, dashed_pattern, format_count_k, scrollbar_thumb_geometry, visible_window_bounds,
};
use petiglyph_tui::model::BleedLevel;
use petiglyph_tui::preview::render_binary_preview_lines;
use petiglyph_tui::natural::{natural_ascii_cmp, natural_source_key_cmp, sort_source_keys_for_animation_frames};
use petiglyph_tui::shell::{animation_frame_interval, switch_notice_visible};
use petiglyph_tui::test_image::render_test_image_from_coverage;

fn key(code: Key) -> KeyPress {
    KeyPress { code, ctrl: false, keypad: false }
}

#[test]
fn natural_order_compares_digit_runs_by_value() {
    assert_eq!(natural_ascii_cmp("frame2", "frame10"), Ordering::Less);
    assert_eq!(natural_ascii_cmp("frame10", "frame2"), Ordering::Greater);
    assert_eq!(natural_ascii_cmp("frame007", "frame7"), Ordering::Greater);
    assert_eq!(natural_ascii_cmp("a", "a"), Ordering::Equal);
    assert_eq!(natural_ascii_cmp("a", "b"), Ordering::Less);
}

#[test]
fn natural_order_swaps_with_its_arguments() {
    let pairs = [("x1", "x01"), ("b2c", "b10a"), ("", "0"), ("z", "z9")];
    for (a, b) in pairs {
        assert_eq!(natural_ascii_cmp(a, b), natural_ascii_cmp(b, a).reverse());
    }
}

#[test]
fn source_keys_compare_by_display_name_ignoring_case() {
    assert_eq!(natural_source_key_cmp("dir/Frame2.png", "other/frame10.png"), Ordering::Less);
}

#[test]
fn animation_frames_sort_naturally() {
    let mut keys = vec![
        "run_10.png".to_string(),
        "run_2.png".to_string(),
        "run_1.png".to_string(),
    ];
    sort_source_keys_for_animation_frames(&mut keys);
    assert_eq!(keys, vec!["run_1.png", "run_2.png", "run_10.png"]);
}

#[test]
fn bleed_steps_undo_each_other() {
    for level in [BleedLevel::Off, BleedLevel::Weak, BleedLevel::Strong] {
        assert_eq!(previous_bleed_level(next_bleed_level(level)), level);
        assert_eq!(next_bleed_level(previous_bleed_level(level)), level);
    }
}

#[test]
fn grid_config_never_drops_below_one_row() {
    let mut config = GridConfig {
        source_key: "sheet.png".to_string(),
        rows: 1,
        cols: 1,
        horizontal_bleed: BleedLevel::Off,
        vertical_bleed: BleedLevel::Off,
        focus: GridConfigFocus::Rows,
    };
    let action = handle_grid_config_key(&mut config, &key(Key::Down));
    assert_eq!(action, GridConfigAction::Stay);
    assert!(config.rows >= 1);
    let action = handle_grid_config_key(&mut config, &key(Key::Backspace));
    assert_eq!(action, GridConfigAction::Stay);
    assert!(config.rows >= 1 && config.cols >= 1);
    let action = handle_grid_config_key(&mut config, &key(Key::Esc));
    assert_eq!(action, GridConfigAction::Cancel);
}

#[test]
fn window_keeps_the_selection_visible() {
    for total in 0..30usize {
        for viewport in 1..12usize {
            for selected in 0..total {
                let (start, end) = visible_window_bounds(total, selected, viewport);
                assert!(start <= selected && selected < end);
                assert!(end <= total);
                assert_eq!(end - start, viewport.min(total));
            }
        }
    }
}

#[test]
fn scrollbar_thumb_stays_inside_the_track() {
    for total in 0..40usize {
        for viewport in 1..15usize {
            for start in 0..total {
                let (top, height) = scrollbar_thumb_geometry(total, viewport, start);
                assert!(top + height <= viewport);
            }
        }
    }
}

#[test]
fn count_k_abbreviates_thousands() {
    assert_eq!(format_count_k(999), "999");
    assert_eq!(format_count_k(1234), "1.2k");
    assert_eq!(format_count_k(65534), "65.5k");
}

#[test]
fn centred_labels_fill_their_width() {
    assert_eq!(center_label("ab", 6), "  ab  ");
    assert_eq!(center_label("abc", 6), " abc  ");
    assert_eq!(center_label("abcdef", 3), "abc");
    assert_eq!(dashed_pattern(6), "──  ──");
}

#[test]
fn percent_decoding_reads_escapes() {
    assert_eq!(percent_decode("a%20b%41"), "a bA");
    assert_eq!(percent_decode("100%"), "100%");
    assert_eq!(decode_file_uri_path("localhost/tmp/a%20b.png"), "/tmp/a b.png");
}

#[test]
fn dropped_paths_are_listed_once() {
    let paths = collect_dropped_paths("file:///tmp/a.png\nfile:///tmp/a.png\n");
    assert_eq!(paths, vec!["/tmp/a.png".to_string()]);
}

#[test]
fn source_keys_are_relative_to_the_input_directory() {
    assert_eq!(source_key_from_input_path("/p/icons", "/p/icons/a/b.png"), "a/b.png");
    assert_eq!(source_key_from_input_path("/p/icons", "/elsewhere/c.png"), "/elsewhere/c.png");
}

#[test]
fn duplicates_take_the_next_free_number() {
    assert_eq!(stem_without_trailing_numeric_suffixes("frame-1-2"), "frame");
    assert_eq!(stem_without_trailing_numeric_suffixes("-3"), "-3");
    let existing = vec!["a.png".to_string(), "a-1.png".to_string(), "a-3.png".to_string(), "a-7.gif".to_string()];
    assert_eq!(next_incremental_duplicate_destination("/p/icons", "a.png", &existing), "/p/icons/a-4.png");
    assert_eq!(next_incremental_duplicate_destination("/p/icons", "a-3.png", &existing), "/p/icons/a-4.png");

    let plan = duplicate_source_key_for_grid_conflict("/p/icons", "sub/a.png", &existing).expect("plan");
    assert_eq!(plan.source_path, "/p/icons/sub/a.png");
    assert_eq!(plan.duplicate_path, "/p/icons/a-4.png");
    assert_eq!(plan.source_key, "a-4.png");

    let refused = duplicate_source_key_for_grid_conflict("/", "", &existing);
    assert_eq!(refused.unwrap_err(), "invalid source file path for ");
}

#[test]
fn a_new_duplicate_name_is_never_an_existing_file() {
    let existing = vec![
        "glyph.png".to_string(),
        "glyph-2.png".to_string(),
        "glyph-10.png".to_string(),
        "glyph-x.png".to_string(),
        "glyph-11".to_string(),
        "notes.txt".to_string(),
    ];
    for source in ["glyph.png", "glyph-2.png", "glyph-10-3.png", "glyph", ".hidden", "a.b.png"] {
        let dest = next_incremental_duplicate_destination("/in", source, &existing);
        let name = dest.strip_prefix("/in/").expect("joined under the input directory").to_string();
        assert!(!existing.contains(&name), "{source} gave {name}");
    }
    assert_eq!(next_incremental_duplicate_destination("/in", "glyph.png", &existing), "/in/glyph-11.png");
    assert_eq!(next_incremental_duplicate_destination("/in", "glyph", &existing), "/in/glyph-12");
    assert_eq!(next_incremental_duplicate_destination("/in", ".hidden", &existing), "/in/.hidden-1");
}

#[test]
fn test_image_refuses_a_coverage_map_of_the_wrong_size() {
    let err = render_test_image_from_coverage(&vec![0u8; 3], 2, 2, 64, false, "a.png").unwrap_err();
    assert_eq!(err, "glyph coverage mismatch for a.png (expected 4, got 3)");
    let img = render_test_image_from_coverage(&vec![0u8, 200, 64, 63], 2, 2, 64, false, "a.png").expect("image");
    assert_eq!(img.black, vec![false, true, true, false]);
    let inverted = render_test_image_from_coverage(&vec![0u8, 200, 64, 63], 2, 2, 64, true, "a.png").expect("image");
    assert_eq!(inverted.black, vec![true, false, false, true]);
}

#[test]
fn frame_interval_and_switch_notice_timing() {
    assert_eq!(animation_frame_interval(10), 100_000_000);
    assert!(switch_notice_visible(0, 1));
}

#[test]
fn fitted_preview_keeps_the_source_shape() {
    // An 8 x 2 block fitted into 25 x 20 cells: the width becomes 22 cells
    // (25 scaled for the cell aspect) and the height the rounded 22 * 2 / 8.
    let matrix = vec![true; 16];
    let lines = render_binary_preview_lines(&matrix, 8, 2, 25, 20, true, false, true);
    assert_eq!(lines.len(), 6);
    for line in &lines {
        assert_eq!(line.chars().count(), 4 + 2 * 22);
        assert!(line.starts_with("    "));
        assert!(line.chars().skip(4).all(|c| c == '█'));
    }
}
