use std::cell::RefCell;

use petiglyph_tui::codepoints::remap_compose_source_key_unambiguous;
use petiglyph_tui::controls::{Key, KeyPress};
use petiglyph_tui::import_files::{
    decide_dropped_file, empty_drop_tally, record_import, DroppedFileCheck, ExistingImportPolicy,
};
use petiglyph_tui::key_routing::handle_key_with_notice;
use petiglyph_tui::layout::{full_repaint_switch_on, scrollbar_thumb_geometry};
use petiglyph_tui::preview::crop_binary_matrix_to_active_bounds;
use petiglyph_tui::project_files::resolve_installed_font_path_with;
use petiglyph_tui::shell::{first_attempt, next_attempt};

fn press(code: Key) -> KeyPress {
    KeyPress { code, ctrl: false, keypad: false }
}

#[test]
fn attempts_stop_at_the_first_success() {
    assert_eq!(first_attempt(0), None);
    assert_eq!(first_attempt(3), Some(0));
    assert_eq!(next_attempt(0, false, 3), Some(1));
    assert_eq!(next_attempt(1, true, 3), None);
    assert_eq!(next_attempt(2, false, 3), None);
}

#[test]
fn installed_font_lookup_asks_until_the_first_yes() {
    let candidates = vec!["a.ttf".to_string(), "b.ttf".to_string(), "c.ttf".to_string()];
    let asked = RefCell::new(Vec::new());
    let found = resolve_installed_font_path_with(&candidates, |p: &String| {
        asked.borrow_mut().push(p.clone());
        p == "b.ttf"
    });
    assert_eq!(found, Some("b.ttf".to_string()));
    assert_eq!(*asked.borrow(), vec!["a.ttf".to_string(), "b.ttf".to_string()]);

    let asked = RefCell::new(0usize);
    let none = resolve_installed_font_path_with(&candidates, |_: &String| {
        *asked.borrow_mut() += 1;
        false
    });
    assert_eq!(none, None);
    assert_eq!(*asked.borrow(), 3);
}

#[test]
fn scrollbar_works_at_the_edge_of_the_integer_range() {
    assert_eq!(scrollbar_thumb_geometry(usize::MAX, 1, 0), (0, 1));
}

#[test]
fn the_notice_takes_every_key_while_it_is_open() {
    // The rest of the interface: whether it quits.
    let quit_on_q = |quit: bool, key: &KeyPress| (false, quit || key.code == Key::Char('q'));
    let (open, quit) = handle_key_with_notice(true, false, &press(Key::Char('q')), quit_on_q);
    assert!(open);
    assert!(!quit);
    let (open, quit) = handle_key_with_notice(open, quit, &press(Key::Char(' ')), quit_on_q);
    assert!(!open);
    assert!(!quit);
    let (open, quit) = handle_key_with_notice(open, quit, &press(Key::Char('q')), quit_on_q);
    assert!(!open);
    assert!(quit);
    assert!(!handle_key_with_notice(true, 0u8, &press(Key::Enter), |s: u8, _: &KeyPress| (false, s)).0);
    assert!(!handle_key_with_notice(true, 0u8, &press(Key::Esc), |s: u8, _: &KeyPress| (false, s)).0);
}

#[test]
fn full_repaint_switch_values() {
    assert!(!full_repaint_switch_on(None));
    assert!(!full_repaint_switch_on(Some("")));
    assert!(!full_repaint_switch_on(Some("0")));
    assert!(!full_repaint_switch_on(Some("FALSE")));
    assert!(!full_repaint_switch_on(Some("Off")));
    assert!(full_repaint_switch_on(Some("1")));
    assert!(full_repaint_switch_on(Some("yes")));
    assert!(full_repaint_switch_on(Some("offf")));
}

#[test]
fn crop_is_the_tightest_rectangle() {
    // 5 x 4, set pixels at (1, 1), (3, 1) and (2, 2).
    let mut m = vec![false; 20];
    m[1 * 5 + 1] = true;
    m[1 * 5 + 3] = true;
    m[2 * 5 + 2] = true;
    let (c, w, h) = crop_binary_matrix_to_active_bounds(&m, 5, 4).expect("pixels are set");
    assert_eq!((w, h), (3, 2));
    assert_eq!(c, vec![true, false, true, false, true, false]);
    assert_eq!(crop_binary_matrix_to_active_bounds(&vec![false; 20], 5, 4), None);
}

#[test]
fn every_dropped_path_is_counted_once() {
    let checks = vec![
        DroppedFileCheck::Missing,
        DroppedFileCheck::Candidate { key: "a.png".to_string(), same_file: false, identical_copy: false },
        DroppedFileCheck::Unsupported,
        DroppedFileCheck::Candidate { key: "b.png".to_string(), same_file: true, identical_copy: false },
        DroppedFileCheck::Candidate { key: "c.png".to_string(), same_file: false, identical_copy: true },
        DroppedFileCheck::NoFileName,
    ];
    let mut tally = empty_drop_tally();
    for check in &checks {
        if decide_dropped_file(&mut tally, check, ExistingImportPolicy::ReuseIdentical) {
            record_import(&mut tally, "a-1.png".to_string(), true);
        }
    }
    let counted = tally.imported + tally.skipped_existing + tally.skipped_unsupported + tally.skipped_missing;
    assert_eq!(counted, checks.len());
    assert!(tally.renamed <= tally.imported);
    assert_eq!(tally.created_source_keys.len(), tally.imported);
    assert_eq!(tally.imported_source_keys.len(), tally.imported + tally.skipped_existing);
    assert_eq!(tally.imported_source_keys, vec!["a-1.png", "b.png", "c.png"]);
}

#[test]
fn tile_keys_are_remapped_only_on_a_single_match() {
    let one = vec!["icons/a.png#compose:2x2:0:1".to_string(), "icons/b.png#compose:2x2:0:1".to_string()];
    assert_eq!(
        remap_compose_source_key_unambiguous(&one, "a.png#compose:2x2:0:1"),
        Some("icons/a.png#compose:2x2:0:1".to_string())
    );
    let two = vec!["x/a.png#compose:2x2:0:1".to_string(), "y/a.png#compose:2x2:0:1".to_string()];
    assert_eq!(remap_compose_source_key_unambiguous(&two, "a.png#compose:2x2:0:1"), None);
    assert_eq!(remap_compose_source_key_unambiguous(&one, "a.png#compose:2x2:1:1"), None);
    assert_eq!(remap_compose_source_key_unambiguous(&one, "icons/a.png"), None);
}
