use std::cell::RefCell;

use petiglyph_tui::animation::default_animation_name_from_frames;
use petiglyph_tui::controls::preview_leftmost_control;
use petiglyph_tui::drop_zone::{creation_workflow_import_area_label, drag_images_here_lines, DropZoneSpan};
use petiglyph_tui::drop_paths::{collect_dropped_paths, split_shell_like_tokens, unescape_backslashes};
use petiglyph_tui::model::{AnimationDef, AnimationType, GlyphPreviewControl, RuntimeConfig};
use petiglyph_tui::shell::{clipboard_providers_for_os, copy_to_clipboard_with_runner, ClipboardProvider};

fn project_config(project_id: &str) -> RuntimeConfig {
    RuntimeConfig {
        project_dir: "/tmp/project".to_string(),
        project_id: project_id.to_string(),
        input_dir: "/tmp/project/icons".to_string(),
        out_dir: "/tmp/project/build".to_string(),
        font_name: "Petiglyph".to_string(),
        glyph_size: 8,
        base_threshold: 64,
        threshold_overrides: Vec::new(),
        invert_overrides: Vec::new(),
        compositions: Vec::new(),
        animations: Vec::new(),
        codepoint_start: 0x10_0000,
    }
}

fn provider_commands(providers: &[ClipboardProvider]) -> Vec<&'static str> {
    providers.iter().map(|provider| provider.command).collect()
}

#[test]
fn animation_name_is_derived_from_first_frame_and_suffixed_with_anim() {
    let config = project_config("test-animation-name-derive");
    let frames = vec!["run-fast_001.png".to_string(), "run-fast_002.png".to_string()];
    let name = default_animation_name_from_frames(&config, &frames);
    assert_eq!(name, "runfast_anim");
}

#[test]
fn animation_name_conflicts_increment_with_numeric_suffix() {
    let mut config = project_config("test-animation-name-conflicts");
    config.animations.push(AnimationDef {
        name: "runner_anim".to_string(),
        animation_type: AnimationType::Standard,
        fps: 8,
        frames: vec!["runner_001.png".to_string()],
        rows: None,
        cols: None,
        horizontal_bleed: None,
        vertical_bleed: None,
        grayscale_processing: None,
    });
    config.animations.push(AnimationDef {
        name: "runner_anim_1".to_string(),
        animation_type: AnimationType::Standard,
        fps: 8,
        frames: vec!["runner_002.png".to_string()],
        rows: None,
        cols: None,
        horizontal_bleed: None,
        vertical_bleed: None,
        grayscale_processing: None,
    });

    let name = default_animation_name_from_frames(&config, &vec!["runner_010.png".to_string()]);
    assert_eq!(name, "runner_anim_2");
}

#[test]
fn preview_leftmost_control_prefers_threshold_then_fps_then_invert() {
    assert_eq!(preview_leftmost_control(true, true, false), Some(GlyphPreviewControl::Threshold));
    assert_eq!(preview_leftmost_control(false, true, true), Some(GlyphPreviewControl::Fps));
    assert_eq!(preview_leftmost_control(false, false, true), Some(GlyphPreviewControl::Invert));
    assert_eq!(preview_leftmost_control(false, false, false), None);
}

#[test]
fn collect_dropped_paths_splits_concatenated_file_uris() {
    let first = "/tmp/collect-dropped-paths-file-uri/a.png";
    let second = "/tmp/collect-dropped-paths-file-uri/b.png";

    let payload = format!("file://{}file://{}", first, second);
    let paths = collect_dropped_paths(&payload);
    assert_eq!(paths.len(), 2, "payload should split both file URIs");
    assert!(paths.contains(&first.to_string()));
    assert!(paths.contains(&second.to_string()));
}

#[test]
fn shell_token_split_preserves_windows_path_separators() {
    let payload = r#"C:\Users\petiglyph\frame.png "C:\Users\petiglyph\space frame.png""#;
    let tokens = split_shell_like_tokens(payload);

    assert_eq!(
        tokens,
        vec![
            r"C:\Users\petiglyph\frame.png".to_string(),
            r"C:\Users\petiglyph\space frame.png".to_string(),
        ]
    );
}

#[test]
fn unescape_backslashes_preserves_windows_path_separators() {
    assert_eq!(
        unescape_backslashes(r"C:\Users\alice\icons\frame.gif"),
        r"C:\Users\alice\icons\frame.gif"
    );
}

#[test]
fn clipboard_provider_selection_simulates_cross_os_matrix() {
    assert_eq!(provider_commands(&clipboard_providers_for_os("linux", true)), vec!["wl-copy"]);
    assert_eq!(
        provider_commands(&clipboard_providers_for_os("linux", false)),
        vec!["xclip", "wl-copy"]
    );
    assert_eq!(provider_commands(&clipboard_providers_for_os("macos", false)), vec!["pbcopy"]);
    assert_eq!(
        provider_commands(&clipboard_providers_for_os("windows", false)),
        vec!["powershell", "clip.exe"]
    );
    assert_eq!(
        provider_commands(&clipboard_providers_for_os("freebsd", false)),
        vec!["xclip", "wl-copy"]
    );
}

#[test]
fn clipboard_copy_runner_uses_fallback_provider_after_failure() {
    let providers = clipboard_providers_for_os("windows", false);
    let attempts = RefCell::new(Vec::new());
    let copied_payloads = RefCell::new(Vec::new());

    let result = copy_to_clipboard_with_runner("abc123", &providers, |provider, text| {
        attempts.borrow_mut().push(provider.command.to_string());
        copied_payloads
            .borrow_mut()
            .push((provider.command.to_string(), text.to_string()));
        if provider.command == "powershell" {
            Err("provider unavailable".to_string())
        } else {
            Ok(())
        }
    });

    assert!(result.is_ok(), "fallback provider should succeed");
    assert_eq!(attempts.into_inner(), vec!["powershell", "clip.exe"]);
    assert_eq!(
        copied_payloads.into_inner(),
        vec![
            ("powershell".to_string(), "abc123".to_string()),
            ("clip.exe".to_string(), "abc123".to_string())
        ]
    );
}

#[test]
fn clipboard_copy_runner_reports_aggregate_failures() {
    let providers = clipboard_providers_for_os("linux", false);

    let result = copy_to_clipboard_with_runner("payload", &providers, |provider, _| {
        Err(format!("{} missing from PATH", provider.command))
    });

    let err = result.expect_err("all providers fail in this simulation");
    let message = err.to_string();
    assert!(message.contains("failed to copy to clipboard"));
    assert!(message.contains("tried: xclip, wl-copy"));
    assert!(message.contains("xclip: xclip missing from PATH"));
    assert!(message.contains("wl-copy: wl-copy missing from PATH"));
}

fn render_drop_zone(lines: &[Vec<DropZoneSpan>]) -> Vec<String> {
    lines
        .iter()
        .map(|line| line.iter().map(|span| span.text.as_str()).collect::<String>())
        .collect()
}

#[test]
fn drag_images_placeholder_handles_small_and_regular_regions() {
    assert!(
        drag_images_here_lines(6, 2, 0, false, false, None, None).is_empty(),
        "very small regions should skip drag placeholder rendering"
    );

    let lines = drag_images_here_lines(40, 7, 3, false, false, None, None);
    assert_eq!(lines.len(), 7, "placeholder should fill requested height");
    let rendered = render_drop_zone(&lines);
    assert!(
        rendered.iter().any(|line| line.contains("DRAG/PASTE IMAGES HERE")),
        "placeholder body should include drag/paste label"
    );
    assert!(
        rendered.iter().any(|line| line.contains("Images added: 3")),
        "placeholder body should include import counter"
    );
    assert!(
        rendered.iter().any(|line| line.contains("Images added: 3 ✓")),
        "placeholder should show a checkmark when images have been added"
    );

    let zero_rendered = render_drop_zone(&drag_images_here_lines(40, 7, 0, false, false, None, None));
    assert!(
        zero_rendered.iter().any(|line| line.contains("Images added: 0")),
        "placeholder should still render counter at zero"
    );
    assert!(
        zero_rendered.iter().all(|line| !line.contains("Images added: 0 ✓")),
        "placeholder should not show checkmark when no images were added"
    );

    let media_rendered = render_drop_zone(&drag_images_here_lines(40, 7, 2, true, false, None, None));
    assert!(
        media_rendered.iter().any(|line| line.contains("DRAG/PASTE MEDIA HERE")),
        "animation placeholder should show media label"
    );
    assert!(
        media_rendered.iter().any(|line| line.contains("Media added: 2")),
        "animation placeholder should show media counter"
    );

    let processing_rendered =
        render_drop_zone(&drag_images_here_lines(40, 7, 0, true, false, Some("|"), None));
    assert!(
        processing_rendered.iter().any(|line| line.contains("Processing |")),
        "placeholder should show a processing spinner before completion"
    );
    assert!(
        processing_rendered.iter().all(|line| !line.contains("✓")),
        "placeholder should not show checkmark while processing is active"
    );

    let replace_rendered = render_drop_zone(&drag_images_here_lines(
        50,
        8,
        1,
        false,
        false,
        None,
        Some("Replaced image: grid_1.png -> grid_2.png"),
    ));
    assert!(
        replace_rendered
            .iter()
            .any(|line| line.contains("Replaced image: grid_1.png -> grid_2.png")),
        "placeholder should show inline replacement notice when provided"
    );
}

#[test]
fn import_area_labels_name_drag_or_picker() {
    assert_eq!(creation_workflow_import_area_label(false, false), "DRAG/PASTE IMAGES HERE");
    assert_eq!(creation_workflow_import_area_label(true, false), "DRAG/PASTE MEDIA HERE");
    assert_eq!(creation_workflow_import_area_label(false, true), "PICK/PASTE IMAGES HERE");
    assert_eq!(creation_workflow_import_area_label(true, true), "PICK/PASTE MEDIA HERE");
}

#[test]
fn drop_zone_box_is_drawn_exactly() {
    let rendered = render_drop_zone(&drag_images_here_lines(20, 4, 0, false, false, None, None));
    assert_eq!(
        rendered,
        vec![
            "    ╭──  ──  ──╮".to_string(),
            " ".repeat(16),
            "    │DRAG/PASTE│".to_string(),
            "    ╰──  ──  ──╯".to_string(),
        ]
    );
}
