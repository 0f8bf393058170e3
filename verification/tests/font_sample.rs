use std::collections::BTreeSet;

use petiglyph_tui::font_sample::{add_sample_codepoint, finish_font_sample, sample_glyphs_from_ttf_bytes, FontSample};

#[test]
fn unreadable_fonts_give_no_sample() {
    assert_eq!(sample_glyphs_from_ttf_bytes(b"not a font at all", 15), None);
    assert_eq!(sample_glyphs_from_ttf_bytes(&[], 15), None);
    assert_eq!(sample_glyphs_from_ttf_bytes(b"not a font at all", 0), None);
}

#[test]
fn sample_keeps_the_first_codepoints_in_order() {
    let mut sample = FontSample { codepoints: BTreeSet::new(), truncated: false };
    for (cp, drawn) in [(0x43, true), (0x41, true), (0x20, true), (0x42, false), (0xD800, true), (0x41, true), (0x44, true)] {
        add_sample_codepoint(&mut sample, cp, drawn, 3);
    }
    assert_eq!(sample.codepoints.iter().copied().collect::<Vec<u32>>(), vec![0x41, 0x43, 0x44]);
    assert!(!sample.truncated);
    add_sample_codepoint(&mut sample, 0x45, true, 3);
    assert!(sample.truncated);
    assert_eq!(sample.codepoints.iter().copied().collect::<Vec<u32>>(), vec![0x41, 0x43, 0x44]);
    assert_eq!(finish_font_sample(&sample), Some(("ACD".to_string(), true)));
}

#[test]
fn empty_sample_is_none() {
    let sample = FontSample { codepoints: BTreeSet::new(), truncated: false };
    assert_eq!(finish_font_sample(&sample), None);
}
