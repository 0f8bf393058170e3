use petiglyph_tui::controls::{Key, KeyPress};
use petiglyph_tui::glyph_tools::{handle_animation_tool_key, AnimationToolStep, AnimationTypeChoiceFocus};
use petiglyph_tui::model::{AnimationType, BleedLevel};
use petiglyph_tui::config_keys::{AnimationConfig, AnimationConfigFocus};
use petiglyph_tui::tool_panel::{animation_config_lines, animation_tool_lines};

fn press(code: Key) -> KeyPress {
    KeyPress { code, ctrl: false, keypad: false }
}

#[test]
fn animation_tool_walks_from_import_to_settings() {
    let imported = vec!["f1.png".to_string(), "f2.png".to_string()];
    let mut picked: Vec<String> = Vec::new();
    let mut step = AnimationToolStep::ImportFrames;

    let r = handle_animation_tool_key(&mut step, &mut picked, true, None, &imported, &press(Key::Enter));
    assert_eq!(r.status.as_deref(), Some("animation frames are still loading"));
    assert_eq!(step, AnimationToolStep::ImportFrames);

    let r = handle_animation_tool_key(&mut step, &mut picked, false, None, &imported, &press(Key::Enter));
    assert_eq!(r.status.as_deref(), Some("Choose animation type"));
    assert_eq!(step, AnimationToolStep::ChooseType(AnimationTypeChoiceFocus::Standard));

    handle_animation_tool_key(&mut step, &mut picked, false, None, &imported, &press(Key::Right));
    let r = handle_animation_tool_key(&mut step, &mut picked, false, None, &imported, &press(Key::Enter));
    assert_eq!(step, AnimationToolStep::SelectFrames(AnimationType::Grid));
    assert_eq!(r.picking_frames, Some(true));

    let r = handle_animation_tool_key(&mut step, &mut picked, false, None, &imported, &press(Key::Enter));
    assert_eq!(r.status.as_deref(), Some("select at least one frame"));

    handle_animation_tool_key(&mut step, &mut picked, false, Some("f2.png"), &imported, &press(Key::Char(' ')));
    handle_animation_tool_key(&mut step, &mut picked, false, Some("f1.png"), &imported, &press(Key::Char(' ')));
    assert_eq!(picked, vec!["f2.png".to_string(), "f1.png".to_string()]);
    handle_animation_tool_key(&mut step, &mut picked, false, Some("f2.png"), &imported, &press(Key::Char(' ')));
    assert_eq!(picked, vec!["f1.png".to_string()]);

    let r = handle_animation_tool_key(&mut step, &mut picked, false, Some("other.png"), &imported, &press(Key::Char(' ')));
    assert_eq!(r.status.as_deref(), Some("only media imported in this animation flow can be used as frames"));

    let r = handle_animation_tool_key(&mut step, &mut picked, false, None, &imported, &press(Key::Enter));
    assert_eq!(r.configure, Some(AnimationType::Grid));
    assert_eq!(r.picking_frames, Some(false));
}

#[test]
fn animation_tool_cancels_and_drops_the_draft() {
    let mut picked = vec!["f1.png".to_string()];
    let mut step = AnimationToolStep::SelectFrames(AnimationType::Standard);
    let r = handle_animation_tool_key(&mut step, &mut picked, false, None, &Vec::new(), &press(Key::Char('q')));
    assert!(r.clear_draft);
    assert_eq!(r.status.as_deref(), Some("animation frame selection canceled"));
    assert_eq!(step, AnimationToolStep::Off);
}

#[test]
fn animation_panel_lines_follow_the_tool() {
    let lines = animation_tool_lines(AnimationToolStep::ChooseType(AnimationTypeChoiceFocus::Grid), None, 0);
    assert_eq!(
        lines,
        vec![
            "Choose animation type",
            "",
            "   Standard    [Grid]",
            "",
            "Left/Right to choose, Enter to continue, q/Esc to cancel.",
        ]
    );
    let lines = animation_tool_lines(AnimationToolStep::ImportFrames, None, 3);
    assert_eq!(lines.len(), 7);
    assert_eq!(lines[2], format!("  ╭{}╮", "──  ".repeat(6)));
    assert_eq!(lines[3], "  │    DRAG/PASTE MEDIA    │");
    assert_eq!(lines[6], "Current draft frames: 3");
    let lines = animation_tool_lines(AnimationToolStep::ImportFrames, Some("|"), 0);
    assert_eq!(lines, vec!["Importing animation frames", "", "| Loading animation frames...", "Current draft frames: 0"]);
    let lines = animation_tool_lines(AnimationToolStep::SelectFrames(AnimationType::Standard), None, 2);
    assert_eq!(lines[0], "Selecting Standard animation frames");
    assert_eq!(lines[4], "Current draft frames: 2");
    assert!(animation_tool_lines(AnimationToolStep::Off, None, 2).is_empty());
}

#[test]
fn animation_settings_panel_brackets_the_focus() {
    let config = AnimationConfig {
        selected_frames: vec!["a.png".to_string()],
        animation_name: "walk".to_string(),
        animation_type: AnimationType::Grid,
        fps: 8,
        rows: 1,
        cols: 2,
        horizontal_bleed: BleedLevel::Weak,
        vertical_bleed: BleedLevel::Off,
        grayscale_processing: None,
        focus: AnimationConfigFocus::HorizontalBleed,
    };
    let lines = animation_config_lines(&config);
    assert_eq!(
        lines,
        vec![
            "Configure grid animation",
            "",
            "Name: walk",
            "FPS: 8",
            "Rows: 1",
            "Cols: 2",
            "[L/R bleed: WEAK]",
            "T/B bleed: OFF",
            "Frames: 1",
            "Create animation",
            "Left/Right move focus, Up/Down adjust, Enter creates, q/Esc cancels.",
        ]
    );
    let standard = AnimationConfig { animation_type: AnimationType::Standard, focus: AnimationConfigFocus::Create, ..config };
    let lines = animation_config_lines(&standard);
    assert_eq!(lines.len(), 7);
    assert_eq!(lines[3], "FPS: 8");
    assert_eq!(lines[5], "[Create animation]");
}
