//! The project data that the TUI logic reads: animation definitions, grid
//! compositions, preprocessed glyphs and the runtime configuration of a
//! project, held as plain values.
use vstd::prelude::*;

verus! {

/// How far a grid tile's outline is extended across an internal boundary.
#[derive(Debug, Clone, Copy, PartialEq, Eq, Structural)]
pub enum BleedLevel {
    Off,
    Weak,
    Strong,
}

/// A standard animation (one glyph per frame) or a grid animation
/// (each frame split into `rows` x `cols` glyph cells).
#[derive(Debug, Clone, Copy, PartialEq, Eq, Structural)]
pub enum AnimationType {
    Standard,
    Grid,
}

/// Grayscale tone processing applied to imported frames.
#[derive(Debug, Clone, Copy, PartialEq, Eq, Structural)]
pub struct GrayscaleOptions {
    pub brightness: i16,
    pub contrast: i16,
    pub gamma_percent: u16,
}

/// Whether grayscale processing is applied on import, and with which tones.
#[derive(Debug, Clone, Copy, PartialEq, Eq, Structural)]
pub struct ImportProcessingOptions {
    pub grayscale_enabled: bool,
    pub grayscale: GrayscaleOptions,
}

/// An `[[animations]]` entry of the project manifest.
#[derive(Debug, Clone)]
pub struct AnimationDef {
    pub name: String,
    pub animation_type: AnimationType,
    pub fps: u8,
    pub frames: Vec<String>,
    pub rows: Option<usize>,
    pub cols: Option<usize>,
    pub horizontal_bleed: Option<BleedLevel>,
    pub vertical_bleed: Option<BleedLevel>,
    pub grayscale_processing: Option<ImportProcessingOptions>,
}

/// A static grid definition (`[compositions."<source>"]`).
#[derive(Debug, Clone, Copy, PartialEq, Eq, Structural)]
pub struct CompositionDef {
    pub rows: usize,
    pub cols: usize,
    pub horizontal_bleed: BleedLevel,
    pub vertical_bleed: BleedLevel,
}

/// Where a glyph sits inside the grid its source was split into.
#[derive(Debug, Clone, Copy, PartialEq, Eq, Structural)]
pub struct CompositionTileInfo {
    pub rows: usize,
    pub cols: usize,
    pub row: usize,
    pub col: usize,
    pub horizontal_bleed: BleedLevel,
    pub vertical_bleed: BleedLevel,
}

/// A source rasterised to a `width` x `height` coverage map (row-major,
/// one byte per pixel).
#[derive(Debug, Clone)]
pub struct PreprocessedGlyph {
    pub source_path: String,
    pub source_key: String,
    pub source_parent_key: String,
    pub glyph_name: String,
    pub width: u32,
    pub height: u32,
    pub coverage: Vec<u8>,
    pub image_fingerprint: String,
    pub composition_tile: Option<CompositionTileInfo>,
}

/// A glyph together with its saved and working threshold/invert settings.
#[derive(Debug, Clone)]
pub struct InteractiveGlyph {
    pub glyph: PreprocessedGlyph,
    pub saved_threshold: Option<u8>,
    pub working_threshold: u8,
    pub saved_invert: bool,
    pub working_invert: bool,
}

/// The resolved configuration of the active project.  Per-source tables
/// are held as `(source key, value)` entries.
#[derive(Debug, Clone)]
pub struct RuntimeConfig {
    pub project_dir: String,
    pub project_id: String,
    pub input_dir: String,
    pub out_dir: String,
    pub font_name: String,
    pub glyph_size: u32,
    pub base_threshold: u8,
    pub threshold_overrides: Vec<(String, u8)>,
    pub invert_overrides: Vec<(String, bool)>,
    pub compositions: Vec<(String, CompositionDef)>,
    pub animations: Vec<AnimationDef>,
    pub codepoint_start: u32,
}

/// Playback state of the animation preview: which frame is shown and when
/// it was last advanced (a monotonic clock reading in nanoseconds).
#[derive(Debug, Clone)]
pub struct AnimationPreview {
    pub animation_name: String,
    pub frame_index: usize,
    pub last_frame_at: u64,
}

/// One row of the glyph list.
#[allow(inconsistent_fields)]
#[derive(Debug, Clone)]
pub enum VisibleGlyphRow {
    AnimationParent { animation_idx: usize },
    AnimationFrame {
        animation_idx: usize,
        frame_idx: usize,
        source_key: String,
        glyph_idx: Option<usize>,
    },
    Single { glyph_idx: usize },
    CompositionParent {
        source_key: String,
        rows: usize,
        cols: usize,
        emitted_cols: usize,
        first_child_idx: usize,
    },
    CompositionChild { glyph_idx: usize, source_key: String, row: usize, col: usize },
}

/// A font installed from a project, as previewed on the Home panel: the
/// playback rate and the text block of each frame.
#[derive(Debug, Clone)]
pub struct InstalledFontAnimationPreview {
    pub fps: u8,
    pub frame_blocks: Vec<String>,
}

/// A sample block of an installed font: its label, the glyph text, and the
/// text copied to the clipboard.
#[derive(Debug, Clone)]
pub struct InstalledFontBlock {
    pub label: String,
    pub block: String,
    pub export: String,
}

/// The kind of glyph being created on the Home panel.
#[derive(Debug, Clone, Copy, PartialEq, Eq, Structural)]
pub enum HomeCreationKind {
    Glyph,
    Grid,
    AnimatedGlyph,
    AnimatedGridGlyph,
}

/// A control of the import-settings (tweaking) popup.
#[derive(Debug, Clone, Copy, PartialEq, Eq, Structural)]
pub enum AnimationImportSettingsFocus {
    GrayscaleToggle,
    GrayscaleOptionsButton,
    Threshold,
    FramesButton,
    ExportTestImageButton,
    Continue,
    Back,
    SkipAll,
}

/// A control of the glyph preview pane.
#[derive(Debug, Clone, Copy, PartialEq, Eq, Structural)]
pub enum GlyphPreviewControl {
    Threshold,
    Fps,
    Invert,
}

} // verus!
