use std::cell::RefCell;

use petiglyph_tui::manifest_edit::{
    remove_animation_definition, set_animation_fps, set_composition_definition, set_invert_override,
    set_threshold_override,
};
use petiglyph_tui::model::{
    AnimationDef, AnimationType, BleedLevel, CompositionDef, PreprocessedGlyph, RuntimeConfig,
};
use petiglyph_tui::project_files::{
    fallback_project_name, first_occurrence_keys, installed_font_candidates,
    interactive_glyphs_from_preprocessed, resolve_installed_font_path_with, sample_blocks_from_text,
    trimmed_sample_text, uninstall_status_message,
};
use petiglyph_tui::screens::{
    full_repaint_lines, home_panel_button_look, startup_loading_line, startup_loading_rect,
    terminal_too_small_lines, MessageTone, PanelColor,
};
use petiglyph_tui::shell::Rect;

fn animation(name: &str, fps: u8) -> AnimationDef {
    AnimationDef {
        name: name.to_string(),
        animation_type: AnimationType::Standard,
        fps,
        frames: vec!["a.png".to_string()],
        rows: None,
        cols: None,
        horizontal_bleed: None,
        vertical_bleed: None,
        grayscale_processing: None,
    }
}

fn glyph(parent: &str) -> PreprocessedGlyph {
    PreprocessedGlyph {
        source_path: format!("/p/icons/{parent}"),
        source_key: parent.to_string(),
        source_parent_key: parent.to_string(),
        glyph_name: "g".to_string(),
        width: 1,
        height: 1,
        coverage: vec![0],
        image_fingerprint: String::new(),
        composition_tile: None,
    }
}

fn config() -> RuntimeConfig {
    RuntimeConfig {
        project_dir: "/p".to_string(),
        project_id: "p".to_string(),
        input_dir: "/p/icons".to_string(),
        out_dir: "/p/build".to_string(),
        font_name: "Petiglyph".to_string(),
        glyph_size: 8,
        base_threshold: 64,
        threshold_overrides: Vec::new(),
        invert_overrides: Vec::new(),
        compositions: Vec::new(),
        animations: Vec::new(),
        codepoint_start: 0x10_0000,
    }
}

#[test]
fn malformed_projects_are_named_after_their_folder() {
    assert_eq!(fallback_project_name(Some("my-cool_icons")), "my cool icons");
    assert_eq!(fallback_project_name(Some("-_-")), "Unknown project");
    assert_eq!(fallback_project_name(None), "Unknown project");
}

#[test]
fn samples_split_at_blank_lines() {
    assert_eq!(
        sample_blocks_from_text("AB\nCD\n\nEF\n\n\n"),
        Some(vec!["AB\nCD".to_string(), "EF".to_string()])
    );
    assert_eq!(
        sample_blocks_from_text("A\n\n\nB"),
        Some(vec!["A".to_string(), "\nB".to_string()])
    );
    assert_eq!(sample_blocks_from_text(" \n\n"), None);
    assert_eq!(trimmed_sample_text("AB \n"), Some("AB".to_string()));
    assert_eq!(trimmed_sample_text("\n"), None);
}

#[test]
fn uninstall_status_names_the_outcome() {
    assert_eq!(uninstall_status_message(true, "a.ttf"), "uninstalled a.ttf");
    assert_eq!(uninstall_status_message(false, "a.ttf"), "font already absent: a.ttf");
}

#[test]
fn requested_source_keys_are_taken_once() {
    let keys = vec!["b.png".to_string(), "a.png".to_string(), "b.png".to_string()];
    assert_eq!(first_occurrence_keys(&keys), vec!["b.png".to_string(), "a.png".to_string()]);
}

#[test]
fn saved_settings_are_loaded_back() {
    let mut c = config();
    set_threshold_override(&mut c.threshold_overrides, "a.png", Some(90));
    set_threshold_override(&mut c.threshold_overrides, "b.png", Some(10));
    set_threshold_override(&mut c.threshold_overrides, "b.png", None);
    set_invert_override(&mut c.invert_overrides, "a.png", true);
    let glyphs = interactive_glyphs_from_preprocessed(&c, vec![glyph("a.png"), glyph("b.png")]);
    assert_eq!(glyphs.len(), 2);
    assert_eq!(glyphs[0].saved_threshold, Some(90));
    assert_eq!(glyphs[0].working_threshold, 90);
    assert!(glyphs[0].saved_invert && glyphs[0].working_invert);
    assert_eq!(glyphs[1].saved_threshold, None);
    assert_eq!(glyphs[1].working_threshold, 64);
    assert!(!glyphs[1].saved_invert);

    set_invert_override(&mut c.invert_overrides, "a.png", false);
    assert!(c.invert_overrides.is_empty());
    assert_eq!(c.threshold_overrides, vec![("a.png".to_string(), 90)]);
}

#[test]
fn compositions_are_replaced_in_place() {
    let mut table: Vec<(String, CompositionDef)> = Vec::new();
    let two = CompositionDef { rows: 2, cols: 2, horizontal_bleed: BleedLevel::Off, vertical_bleed: BleedLevel::Off };
    let three = CompositionDef { rows: 3, cols: 1, horizontal_bleed: BleedLevel::Weak, vertical_bleed: BleedLevel::Off };
    set_composition_definition(&mut table, "sheet.png", Some(two));
    set_composition_definition(&mut table, "sheet.png", Some(three));
    assert_eq!(table, vec![("sheet.png".to_string(), three)]);
    set_composition_definition(&mut table, "sheet.png", None);
    assert!(table.is_empty());
}

#[test]
fn animations_are_removed_by_name() {
    let mut animations = vec![animation("run", 8), animation("jump", 8), animation("run", 12)];
    assert!(remove_animation_definition(&mut animations, "run"));
    assert_eq!(animations.len(), 1);
    assert_eq!(animations[0].name, "jump");
    assert!(!remove_animation_definition(&mut animations, "run"));
    assert_eq!(animations.len(), 1);
}

#[test]
fn animation_fps_is_clamped() {
    let mut animations = vec![animation("run", 8), animation("run", 9)];
    assert!(set_animation_fps(&mut animations, "run", 99));
    assert_eq!(animations[0].fps, 30);
    assert_eq!(animations[1].fps, 9);
    assert!(set_animation_fps(&mut animations, "run", 0));
    assert_eq!(animations[0].fps, 1);
    assert!(!set_animation_fps(&mut animations, "walk", 5));
}

#[test]
fn installed_font_is_the_first_candidate_found() {
    let listed = vec!["/f/a.ttf".to_string(), "/f/b.ttf".to_string(), "/f/a.ttf".to_string()];
    let candidates = installed_font_candidates(&listed, Some("/f/b.ttf".to_string()), Some("/f/c.ttf".to_string()));
    assert_eq!(candidates, vec!["/f/a.ttf", "/f/b.ttf", "/f/c.ttf"]);
    let asked = RefCell::new(Vec::new());
    let found = resolve_installed_font_path_with(&candidates, |path: &String| {
        asked.borrow_mut().push(path.clone());
        path.ends_with("b.ttf")
    });
    assert_eq!(found, Some("/f/b.ttf".to_string()));
    assert_eq!(asked.into_inner(), vec!["/f/a.ttf".to_string(), "/f/b.ttf".to_string()]);
    assert_eq!(resolve_installed_font_path_with(&candidates, |_: &String| false), None);
}

#[test]
fn small_terminal_screen_reports_both_sizes() {
    let lines = terminal_too_small_lines(Rect { x: 0, y: 0, width: 80, height: 24 });
    let text: Vec<&str> = lines.iter().map(|(s, _)| s.as_str()).collect();
    assert_eq!(
        text,
        vec![
            "",
            "Terminal too small",
            "",
            "Need at least 96x40 (W x H)",
            "Current: 80x24",
            "",
            "Resize terminal to continue.",
            "Press q or Esc to quit.",
        ]
    );
    assert_eq!(lines[1].1, MessageTone::Warning);
    assert_eq!(lines[7].1, MessageTone::Muted);
}

#[test]
fn loading_screen_spins_and_explains_after_a_second() {
    assert_eq!(startup_loading_line(0, 0), "| Loading...");
    assert_eq!(startup_loading_line(7, 2_000_000_000), "\\ Loading projects, installed fonts, and glyphs...");
    assert_eq!(
        startup_loading_rect(Rect { x: 0, y: 0, width: 100, height: 41 }),
        Rect { x: 23, y: 17, width: 54, height: 7 }
    );
    assert_eq!(
        startup_loading_rect(Rect { x: 2, y: 1, width: 30, height: 5 }),
        Rect { x: 2, y: 1, width: 30, height: 5 }
    );
}

#[test]
fn full_repaint_is_blank() {
    let lines = full_repaint_lines(Rect { x: 0, y: 0, width: 3, height: 2 });
    assert_eq!(lines, vec!["   ".to_string(), "   ".to_string()]);
}

#[test]
fn focused_button_uses_the_accent() {
    assert_eq!(home_panel_button_look(true).bg, PanelColor::Accent);
    assert_eq!(home_panel_button_look(false).fg, PanelColor::White);
}
