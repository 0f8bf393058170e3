use petiglyph_tui::installed_scan::{installed_font_sample, MetadataSample};
use petiglyph_tui::model::InstalledFontBlock;

fn block(label: &str, text: &str) -> InstalledFontBlock {
    InstalledFontBlock { label: label.to_string(), block: text.to_string(), export: text.to_string() }
}

#[test]
fn fonts_without_metadata_show_the_characters_found() {
    let sample = installed_font_sample(
        "/fonts/p.ttf".to_string(),
        Some("p.ttf".to_string()),
        None,
        Some(("ABC".to_string(), false)),
    )
    .expect("listed");
    assert_eq!(sample.file_name, "p.ttf");
    assert_eq!(sample.path, "/fonts/p.ttf");
    assert_eq!(sample.blocks.len(), 1);
    assert_eq!(sample.blocks[0].label, "Glyphs: unknown (standard, 3 glyphs, gray n/a, th n/a)");
    assert_eq!(sample.blocks[0].block, "A   B   C");
    assert!(sample.animation_rows.is_empty());
}

#[test]
fn fonts_with_nothing_to_show_are_not_listed() {
    assert!(installed_font_sample("/fonts/p.ttf".to_string(), None, None, None).is_none());
    let empty = MetadataSample {
        blocks: Vec::new(),
        animation_rows: Vec::new(),
        animation_previews: Vec::new(),
        animation_exports: Vec::new(),
    };
    assert!(installed_font_sample("/fonts/p.ttf".to_string(), None, Some(empty), None).is_none());
}

#[test]
fn metadata_blocks_are_regrouped_and_animations_kept() {
    let metadata = MetadataSample {
        blocks: vec![block("Glyphs: a", "X"), block("Glyphs: grid", "AB\nCD")],
        animation_rows: vec!["run".to_string()],
        animation_previews: Vec::new(),
        animation_exports: vec!["R".to_string()],
    };
    let sample = installed_font_sample("/fonts/p.ttf".to_string(), None, Some(metadata), Some(("Z".to_string(), false)))
        .expect("listed");
    assert_eq!(sample.file_name, "unknown.ttf");
    assert_eq!(sample.blocks.len(), 2);
    assert_eq!(sample.blocks[0].block, "X");
    assert_eq!(sample.blocks[1].block, "AB\nCD");
    assert_eq!(sample.animation_rows, vec!["run".to_string()]);
    assert_eq!(sample.animation_exports, vec!["R".to_string()]);
}
