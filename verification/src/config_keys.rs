//! The key handling of the configuration popups, as steps from a state and
//! a key to the next state and what the caller is to do next.
use vstd::prelude::*;
use crate::controls::{
    bleed_label, bleed_level_from_digit, bleed_level_label, is_animated, next_bleed,
    next_bleed_level, previous_bleed, previous_bleed_level, visible_focuses, Key, KeyPress,
    import_settings_visible_focuses,
};
use crate::keys::{display_name, source_display_name};
use crate::model::{
    AnimationImportSettingsFocus, AnimationType, BleedLevel, CompositionDef, GrayscaleOptions,
    HomeCreationKind, ImportProcessingOptions,
};
use crate::text::{decimal, is_digit, push_decimal, push_str, string_of};

verus! {

// ---------------------------------------------------------------------------
// Keys
// ---------------------------------------------------------------------------
pub open spec fn is_cancel_key(k: Key) -> bool {
    k == Key::Esc || k == Key::Char('q')
}

pub open spec fn is_left_key(k: Key) -> bool {
    k == Key::Left || k == Key::Char('h')
}

pub open spec fn is_right_key(k: Key) -> bool {
    k == Key::Right || k == Key::Char('l')
}

pub open spec fn is_up_key(k: Key) -> bool {
    k == Key::Up || k == Key::Char('k')
}

pub open spec fn is_down_key(k: Key) -> bool {
    k == Key::Down || k == Key::Char('j')
}

/// The digit typed, when the key is an ASCII digit.
pub open spec fn typed_digit(k: Key) -> Option<u32> {
    match k {
        Key::Char(c) => if is_digit(c) {
            Some(((c as u32) - 48) as u32)
        } else {
            None
        },
        _ => None,
    }
}

fn digit_of(c: char) -> (r: Option<u32>)
    ensures
        r == typed_digit(Key::Char(c)),
{
    if '0' <= c && c <= '9' {
        Some((c as u32) - 48)
    } else {
        None
    }
}

/// One more, short of overflow.
pub open spec fn bump_up(n: u32) -> u32 {
    if n == u32::MAX {
        n
    } else {
        (n + 1) as u32
    }
}

/// One less, but at least 1.
pub open spec fn bump_down(n: u32) -> u32 {
    if n <= 1 {
        1
    } else {
        (n - 1) as u32
    }
}

/// A digit typed into a count: appended while the count has one digit,
/// else the count starts over; zero becomes 1.
pub open spec fn type_digit(n: u32, d: u32) -> u32 {
    let v = if n < 10 {
        n * 10 + d
    } else {
        d as int
    };
    if v == 0 {
        1
    } else {
        v as u32
    }
}

/// The count without its last digit (zero becomes 1 afterwards).
pub open spec fn at_least_one(n: u32) -> u32 {
    if n == 0 {
        1
    } else {
        n
    }
}

fn count_up(n: u32) -> (r: u32)
    ensures
        r == bump_up(n),
{
    if n == u32::MAX {
        n
    } else {
        n + 1
    }
}

fn count_down(n: u32) -> (r: u32)
    ensures
        r == bump_down(n),
{
    if n <= 1 {
        1
    } else {
        n - 1
    }
}

fn count_with_digit(n: u32, d: u32) -> (r: u32)
    requires
        d <= 9,
    ensures
        r == type_digit(n, d),
{
    let v = if n < 10 {
        n * 10 + d
    } else {
        d
    };
    if v == 0 {
        1
    } else {
        v
    }
}

// ---------------------------------------------------------------------------
// Grid configuration
// ---------------------------------------------------------------------------
/// The field of the grid popup that has the focus.
#[derive(Debug, Clone, Copy, PartialEq, Eq, Structural)]
pub enum GridConfigFocus {
    Rows,
    Cols,
    HorizontalBleed,
    VerticalBleed,
    Create,
}

/// The grid popup: the source being split and the grid being set up.
#[derive(Debug, Clone)]
pub struct GridConfig {
    pub source_key: String,
    pub rows: u32,
    pub cols: u32,
    pub horizontal_bleed: BleedLevel,
    pub vertical_bleed: BleedLevel,
    pub focus: GridConfigFocus,
}

impl GridConfig {
    /// A grid has at least one row and one column.
    pub open spec fn wf(&self) -> bool {
        self.rows >= 1 && self.cols >= 1
    }
}

/// What the caller does after a key in the grid popup.
#[derive(Debug, Clone, Copy, PartialEq, Eq, Structural)]
pub enum GridConfigAction {
    /// Nothing beyond the new state.
    Stay,
    /// Close the popup: the grid is not created.
    Cancel,
    /// Save this grid for the source and close the popup.
    Create(CompositionDef),
}

pub open spec fn grid_focus_left(f: GridConfigFocus) -> GridConfigFocus {
    match f {
        GridConfigFocus::Rows => GridConfigFocus::Rows,
        GridConfigFocus::Cols => GridConfigFocus::Rows,
        GridConfigFocus::HorizontalBleed => GridConfigFocus::Cols,
        GridConfigFocus::VerticalBleed => GridConfigFocus::HorizontalBleed,
        GridConfigFocus::Create => GridConfigFocus::VerticalBleed,
    }
}

pub open spec fn grid_focus_right(f: GridConfigFocus) -> GridConfigFocus {
    match f {
        GridConfigFocus::Rows => GridConfigFocus::Cols,
        GridConfigFocus::Cols => GridConfigFocus::HorizontalBleed,
        GridConfigFocus::HorizontalBleed => GridConfigFocus::VerticalBleed,
        GridConfigFocus::VerticalBleed => GridConfigFocus::Create,
        GridConfigFocus::Create => GridConfigFocus::Create,
    }
}

/// The grid popup after key `k`, and what follows from it.
pub open spec fn grid_step(c: GridConfig, k: Key) -> (GridConfig, GridConfigAction) {
    if is_cancel_key(k) {
        (c, GridConfigAction::Cancel)
    } else if is_left_key(k) {
        (GridConfig { focus: grid_focus_left(c.focus), ..c }, GridConfigAction::Stay)
    } else if is_right_key(k) {
        (GridConfig { focus: grid_focus_right(c.focus), ..c }, GridConfigAction::Stay)
    } else if is_up_key(k) {
        (match c.focus {
            GridConfigFocus::Rows => GridConfig { rows: bump_up(c.rows), ..c },
            GridConfigFocus::Cols => GridConfig { cols: bump_up(c.cols), ..c },
            GridConfigFocus::HorizontalBleed => GridConfig { horizontal_bleed: next_bleed(c.horizontal_bleed), ..c },
            GridConfigFocus::VerticalBleed => GridConfig { vertical_bleed: next_bleed(c.vertical_bleed), ..c },
            GridConfigFocus::Create => c,
        }, GridConfigAction::Stay)
    } else if is_down_key(k) {
        (match c.focus {
            GridConfigFocus::Rows => GridConfig { rows: bump_down(c.rows), ..c },
            GridConfigFocus::Cols => GridConfig { cols: bump_down(c.cols), ..c },
            GridConfigFocus::HorizontalBleed => GridConfig { horizontal_bleed: previous_bleed(c.horizontal_bleed), ..c },
            GridConfigFocus::VerticalBleed => GridConfig { vertical_bleed: previous_bleed(c.vertical_bleed), ..c },
            GridConfigFocus::Create => c,
        }, GridConfigAction::Stay)
    } else if typed_digit(k) is Some {
        let d = typed_digit(k)->0;
        let level = if d == 0 {
            BleedLevel::Off
        } else if d >= 2 {
            BleedLevel::Strong
        } else {
            BleedLevel::Weak
        };
        (match c.focus {
            GridConfigFocus::Rows => GridConfig { rows: type_digit(c.rows, d), ..c },
            GridConfigFocus::Cols => GridConfig { cols: type_digit(c.cols, d), ..c },
            GridConfigFocus::HorizontalBleed => GridConfig { horizontal_bleed: level, ..c },
            GridConfigFocus::VerticalBleed => GridConfig { vertical_bleed: level, ..c },
            GridConfigFocus::Create => c,
        }, GridConfigAction::Stay)
    } else if k == Key::Char(' ') {
        (match c.focus {
            GridConfigFocus::HorizontalBleed => GridConfig { horizontal_bleed: next_bleed(c.horizontal_bleed), ..c },
            GridConfigFocus::VerticalBleed => GridConfig { vertical_bleed: next_bleed(c.vertical_bleed), ..c },
            _ => c,
        }, GridConfigAction::Stay)
    } else if k == Key::Backspace {
        let e = match c.focus {
            GridConfigFocus::Rows => GridConfig { rows: c.rows / 10, ..c },
            GridConfigFocus::Cols => GridConfig { cols: c.cols / 10, ..c },
            GridConfigFocus::HorizontalBleed => GridConfig { horizontal_bleed: BleedLevel::Weak, ..c },
            GridConfigFocus::VerticalBleed => GridConfig { vertical_bleed: BleedLevel::Weak, ..c },
            GridConfigFocus::Create => c,
        };
        (GridConfig { rows: at_least_one(e.rows), cols: at_least_one(e.cols), ..e }, GridConfigAction::Stay)
    } else if k == Key::Enter && c.focus == GridConfigFocus::Create {
        (c, GridConfigAction::Create(CompositionDef {
            rows: c.rows as usize,
            cols: c.cols as usize,
            horizontal_bleed: c.horizontal_bleed,
            vertical_bleed: c.vertical_bleed,
        }))
    } else {
        (c, GridConfigAction::Stay)
    }
}

/// Typing a digit `d` into the focused row or column count `n` of the grid
/// popup: while `n` has one digit the digit is appended (`n * 10 + d`), else
/// the count starts over at `d`; a count that would be 0 is 1.  Nothing
/// else changes, so typing two digits into a one-digit count and then a
/// third starts a new count.
pub proof fn lemma_grid_digits_append(c: GridConfig, ch: char)
    requires
        '0' <= ch <= '9',
        c.focus == GridConfigFocus::Rows || c.focus == GridConfigFocus::Cols,
    ensures
        ({
            let d = (ch as u32 - 48) as int;
            let n = if c.focus == GridConfigFocus::Rows { c.rows as int } else { c.cols as int };
            let after = grid_step(c, Key::Char(ch));
            let m = if c.focus == GridConfigFocus::Rows { after.0.rows as int } else { after.0.cols as int };
            &&& after.1 == GridConfigAction::Stay
            &&& n < 10 && n * 10 + d > 0 ==> m == n * 10 + d
            &&& n >= 10 && d > 0 ==> m == d
            &&& (n * 10 + d == 0 || (n >= 10 && d == 0)) ==> m == 1
            &&& c.focus == GridConfigFocus::Rows ==> after.0.cols == c.cols
            &&& c.focus == GridConfigFocus::Cols ==> after.0.rows == c.rows
            &&& after.0.focus == c.focus
            &&& after.0.horizontal_bleed == c.horizontal_bleed
            &&& after.0.vertical_bleed == c.vertical_bleed
        }),
{
    assert(is_digit(ch));
    assert(typed_digit(Key::Char(ch)) == Some((ch as u32 - 48) as u32));
}

pub open spec fn same_grid(a: GridConfig, b: GridConfig) -> bool {
    &&& a.source_key@ == b.source_key@
    &&& a.rows == b.rows
    &&& a.cols == b.cols
    &&& a.horizontal_bleed == b.horizontal_bleed
    &&& a.vertical_bleed == b.vertical_bleed
    &&& a.focus == b.focus
}

/// Applies a key to the grid popup and says what the caller does next:
/// Esc or `q` cancels; Left/Right (`h`/`l`) move the focus; Up/Down
/// (`k`/`j`) change the focused count or bleed; digits type a count or pick
/// a bleed level; Space cycles a bleed; Backspace erases a digit or resets
/// a bleed; Enter on Create creates the grid.
pub fn handle_grid_config_key(config: &mut GridConfig, key: &KeyPress) -> (action: GridConfigAction)
    ensures
        same_grid(*final(config), grid_step(*old(config), key.code).0),
        action == grid_step(*old(config), key.code).1,
        old(config).wf() ==> final(config).wf(),
{
    let k = key.code;
    match k {
        Key::Esc => return GridConfigAction::Cancel,
        Key::Left => {
            config.focus = grid_focus_left_of(config.focus);
            return GridConfigAction::Stay;
        },
        Key::Right => {
            config.focus = grid_focus_right_of(config.focus);
            return GridConfigAction::Stay;
        },
        Key::Up => {
            grid_up(config);
            return GridConfigAction::Stay;
        },
        Key::Down => {
            grid_down(config);
            return GridConfigAction::Stay;
        },
        Key::Backspace => {
            match config.focus {
                GridConfigFocus::Rows => config.rows = config.rows / 10,
                GridConfigFocus::Cols => config.cols = config.cols / 10,
                GridConfigFocus::HorizontalBleed => config.horizontal_bleed = BleedLevel::Weak,
                GridConfigFocus::VerticalBleed => config.vertical_bleed = BleedLevel::Weak,
                GridConfigFocus::Create => {},
            }
            if config.rows == 0 {
                config.rows = 1;
            }
            if config.cols == 0 {
                config.cols = 1;
            }
            return GridConfigAction::Stay;
        },
        Key::Enter => {
            if config.focus == GridConfigFocus::Create {
                return GridConfigAction::Create(
                    CompositionDef {
                        rows: config.rows as usize,
                        cols: config.cols as usize,
                        horizontal_bleed: config.horizontal_bleed,
                        vertical_bleed: config.vertical_bleed,
                    },
                );
            }
            return GridConfigAction::Stay;
        },
        Key::Char(c) => {
            if c == 'q' {
                return GridConfigAction::Cancel;
            }
            if c == 'h' {
                config.focus = grid_focus_left_of(config.focus);
                return GridConfigAction::Stay;
            }
            if c == 'l' {
                config.focus = grid_focus_right_of(config.focus);
                return GridConfigAction::Stay;
            }
            if c == 'k' {
                grid_up(config);
                return GridConfigAction::Stay;
            }
            if c == 'j' {
                grid_down(config);
                return GridConfigAction::Stay;
            }
            match digit_of(c) {
                Some(d) => {
                    match config.focus {
                        GridConfigFocus::Rows => config.rows = count_with_digit(config.rows, d),
                        GridConfigFocus::Cols => config.cols = count_with_digit(config.cols, d),
                        GridConfigFocus::HorizontalBleed => config.horizontal_bleed = bleed_level_from_digit(d),
                        GridConfigFocus::VerticalBleed => config.vertical_bleed = bleed_level_from_digit(d),
                        GridConfigFocus::Create => {},
                    }
                    return GridConfigAction::Stay;
                },
                None => {},
            }
            if c == ' ' {
                match config.focus {
                    GridConfigFocus::HorizontalBleed => config.horizontal_bleed = next_bleed_level(config.horizontal_bleed),
                    GridConfigFocus::VerticalBleed => config.vertical_bleed = next_bleed_level(config.vertical_bleed),
                    _ => {},
                }
            }
            GridConfigAction::Stay
        },
        _ => GridConfigAction::Stay,
    }
}

fn grid_focus_left_of(f: GridConfigFocus) -> (r: GridConfigFocus)
    ensures
        r == grid_focus_left(f),
{
    match f {
        GridConfigFocus::Rows => GridConfigFocus::Rows,
        GridConfigFocus::Cols => GridConfigFocus::Rows,
        GridConfigFocus::HorizontalBleed => GridConfigFocus::Cols,
        GridConfigFocus::VerticalBleed => GridConfigFocus::HorizontalBleed,
        GridConfigFocus::Create => GridConfigFocus::VerticalBleed,
    }
}

fn grid_focus_right_of(f: GridConfigFocus) -> (r: GridConfigFocus)
    ensures
        r == grid_focus_right(f),
{
    match f {
        GridConfigFocus::Rows => GridConfigFocus::Cols,
        GridConfigFocus::Cols => GridConfigFocus::HorizontalBleed,
        GridConfigFocus::HorizontalBleed => GridConfigFocus::VerticalBleed,
        GridConfigFocus::VerticalBleed => GridConfigFocus::Create,
        GridConfigFocus::Create => GridConfigFocus::Create,
    }
}

fn grid_up(config: &mut GridConfig)
    ensures
        same_grid(*final(config), grid_step(*old(config), Key::Up).0),
{
    match config.focus {
        GridConfigFocus::Rows => config.rows = count_up(config.rows),
        GridConfigFocus::Cols => config.cols = count_up(config.cols),
        GridConfigFocus::HorizontalBleed => config.horizontal_bleed = next_bleed_level(config.horizontal_bleed),
        GridConfigFocus::VerticalBleed => config.vertical_bleed = next_bleed_level(config.vertical_bleed),
        GridConfigFocus::Create => {},
    }
}

fn grid_down(config: &mut GridConfig)
    ensures
        same_grid(*final(config), grid_step(*old(config), Key::Down).0),
{
    match config.focus {
        GridConfigFocus::Rows => config.rows = count_down(config.rows),
        GridConfigFocus::Cols => config.cols = count_down(config.cols),
        GridConfigFocus::HorizontalBleed => config.horizontal_bleed = previous_bleed_level(config.horizontal_bleed),
        GridConfigFocus::VerticalBleed => config.vertical_bleed = previous_bleed_level(config.vertical_bleed),
        GridConfigFocus::Create => {},
    }
}

pub open spec fn grid_created_message(source_key: Seq<char>, rows: nat, cols: nat, h: BleedLevel, v: BleedLevel) -> Seq<char> {
    "Created "@ + decimal(rows) + seq!['x'] + decimal(cols) + " grid for "@ + display_name(source_key)
        + " (left/right bleed: "@ + bleed_label(h) + ", top/bottom bleed: "@ + bleed_label(v) + ")"@
}

/// The status shown once a grid was created.
pub fn grid_created_status(source_key: &str, rows: usize, cols: usize, horizontal_bleed: BleedLevel, vertical_bleed: BleedLevel) -> (r: String)
    ensures
        r@ == grid_created_message(source_key@, rows as nat, cols as nat, horizontal_bleed, vertical_bleed),
{
    let mut out: Vec<char> = Vec::new();
    push_str(&mut out, "Created ");
    push_decimal(&mut out, rows as u64);
    out.push('x');
    push_decimal(&mut out, cols as u64);
    push_str(&mut out, " grid for ");
    push_str(&mut out, source_display_name(source_key).as_str());
    push_str(&mut out, " (left/right bleed: ");
    push_str(&mut out, bleed_level_label(horizontal_bleed));
    push_str(&mut out, ", top/bottom bleed: ");
    push_str(&mut out, bleed_level_label(vertical_bleed));
    push_str(&mut out, ")");
    proof {
        assert(out@ =~= grid_created_message(source_key@, rows as nat, cols as nat, horizontal_bleed, vertical_bleed));
    }
    string_of(&out)
}


// ---------------------------------------------------------------------------
// Animation configuration
// ---------------------------------------------------------------------------
/// The field of the animation popup that has the focus.
#[derive(Debug, Clone, Copy, PartialEq, Eq, Structural)]
pub enum AnimationConfigFocus {
    Fps,
    Rows,
    Cols,
    HorizontalBleed,
    VerticalBleed,
    Create,
}

/// The animation popup: the frames picked and the animation being set up.
#[derive(Debug, Clone)]
pub struct AnimationConfig {
    pub selected_frames: Vec<String>,
    pub animation_name: String,
    pub animation_type: AnimationType,
    pub fps: u8,
    pub rows: u32,
    pub cols: u32,
    pub horizontal_bleed: BleedLevel,
    pub vertical_bleed: BleedLevel,
    pub grayscale_processing: Option<ImportProcessingOptions>,
    pub focus: AnimationConfigFocus,
}

impl AnimationConfig {
    /// Between 1 and 30 frames per second, and at least one row and column.
    pub open spec fn wf(&self) -> bool {
        1 <= self.fps <= 30 && self.rows >= 1 && self.cols >= 1
    }
}

/// What the caller does after a key in the animation popup.
#[derive(Debug, Clone, Copy, PartialEq, Eq, Structural)]
pub enum AnimationConfigAction {
    /// Keep the popup open with the new state.
    Continue,
    /// Close the popup and drop the draft animation.
    Cancel,
    /// Create the animation of this configuration.
    Create,
}

pub open spec fn anim_focus_left(f: AnimationConfigFocus, t: AnimationType) -> AnimationConfigFocus {
    match f {
        AnimationConfigFocus::Fps => AnimationConfigFocus::Fps,
        AnimationConfigFocus::Rows => AnimationConfigFocus::Fps,
        AnimationConfigFocus::Cols => AnimationConfigFocus::Rows,
        AnimationConfigFocus::HorizontalBleed => AnimationConfigFocus::Cols,
        AnimationConfigFocus::VerticalBleed => AnimationConfigFocus::HorizontalBleed,
        AnimationConfigFocus::Create => if t == AnimationType::Grid {
            AnimationConfigFocus::VerticalBleed
        } else {
            AnimationConfigFocus::Fps
        },
    }
}

pub open spec fn anim_focus_right(f: AnimationConfigFocus, t: AnimationType) -> AnimationConfigFocus {
    match f {
        AnimationConfigFocus::Fps => if t == AnimationType::Grid {
            AnimationConfigFocus::Rows
        } else {
            AnimationConfigFocus::Create
        },
        AnimationConfigFocus::Rows => AnimationConfigFocus::Cols,
        AnimationConfigFocus::Cols => AnimationConfigFocus::HorizontalBleed,
        AnimationConfigFocus::HorizontalBleed => AnimationConfigFocus::VerticalBleed,
        AnimationConfigFocus::VerticalBleed => AnimationConfigFocus::Create,
        AnimationConfigFocus::Create => AnimationConfigFocus::Create,
    }
}

/// `v` kept between `lo` and `hi`.
pub open spec fn clamp_int(v: int, lo: int, hi: int) -> int {
    if v < lo {
        lo
    } else if v > hi {
        hi
    } else {
        v
    }
}

/// One frame per second more, within 1 to 30.
pub open spec fn fps_up(f: u8) -> u8 {
    clamp_int(if f == 255 { 255 } else { f + 1 }, 1, 30) as u8
}

/// One frame per second less, within 1 to 30.
pub open spec fn fps_down(f: u8) -> u8 {
    clamp_int(if f == 0 { 0 } else { f - 1 }, 1, 30) as u8
}

/// The changeable settings of the animation popup.
pub open spec fn anim_settings(c: AnimationConfig) -> (AnimationConfigFocus, u8, u32, u32, BleedLevel, BleedLevel) {
    (c.focus, c.fps, c.rows, c.cols, c.horizontal_bleed, c.vertical_bleed)
}

/// The settings after key `k`, and what follows from it.
pub open spec fn animation_step(c: AnimationConfig, k: Key) -> ((AnimationConfigFocus, u8, u32, u32, BleedLevel, BleedLevel), AnimationConfigAction) {
    let s = anim_settings(c);
    if is_cancel_key(k) {
        (s, AnimationConfigAction::Cancel)
    } else if is_left_key(k) {
        ((anim_focus_left(c.focus, c.animation_type), s.1, s.2, s.3, s.4, s.5), AnimationConfigAction::Continue)
    } else if is_right_key(k) {
        ((anim_focus_right(c.focus, c.animation_type), s.1, s.2, s.3, s.4, s.5), AnimationConfigAction::Continue)
    } else if is_up_key(k) {
        (match c.focus {
            AnimationConfigFocus::Fps => (s.0, fps_up(c.fps), s.2, s.3, s.4, s.5),
            AnimationConfigFocus::Rows => (s.0, s.1, bump_up(c.rows), s.3, s.4, s.5),
            AnimationConfigFocus::Cols => (s.0, s.1, s.2, bump_up(c.cols), s.4, s.5),
            AnimationConfigFocus::HorizontalBleed => (s.0, s.1, s.2, s.3, next_bleed(c.horizontal_bleed), s.5),
            AnimationConfigFocus::VerticalBleed => (s.0, s.1, s.2, s.3, s.4, next_bleed(c.vertical_bleed)),
            AnimationConfigFocus::Create => s,
        }, AnimationConfigAction::Continue)
    } else if is_down_key(k) {
        (match c.focus {
            AnimationConfigFocus::Fps => (s.0, fps_down(c.fps), s.2, s.3, s.4, s.5),
            AnimationConfigFocus::Rows => (s.0, s.1, bump_down(c.rows), s.3, s.4, s.5),
            AnimationConfigFocus::Cols => (s.0, s.1, s.2, bump_down(c.cols), s.4, s.5),
            AnimationConfigFocus::HorizontalBleed => (s.0, s.1, s.2, s.3, previous_bleed(c.horizontal_bleed), s.5),
            AnimationConfigFocus::VerticalBleed => (s.0, s.1, s.2, s.3, s.4, previous_bleed(c.vertical_bleed)),
            AnimationConfigFocus::Create => s,
        }, AnimationConfigAction::Continue)
    } else if k == Key::Enter {
        (s, AnimationConfigAction::Create)
    } else {
        (s, AnimationConfigAction::Continue)
    }
}

fn fps_step_up(f: u8) -> (r: u8)
    ensures
        r == fps_up(f),
{
    let n = if f == 255 { 255 } else { f + 1 };
    if n < 1 {
        1
    } else if n > 30 {
        30
    } else {
        n
    }
}

fn fps_step_down(f: u8) -> (r: u8)
    ensures
        r == fps_down(f),
{
    let n = if f == 0 { 0 } else { f - 1 };
    if n < 1 {
        1
    } else if n > 30 {
        30
    } else {
        n
    }
}

fn animation_focus_left(f: AnimationConfigFocus, t: AnimationType) -> (r: AnimationConfigFocus)
    ensures
        r == anim_focus_left(f, t),
{
    match f {
        AnimationConfigFocus::Fps => AnimationConfigFocus::Fps,
        AnimationConfigFocus::Rows => AnimationConfigFocus::Fps,
        AnimationConfigFocus::Cols => AnimationConfigFocus::Rows,
        AnimationConfigFocus::HorizontalBleed => AnimationConfigFocus::Cols,
        AnimationConfigFocus::VerticalBleed => AnimationConfigFocus::HorizontalBleed,
        AnimationConfigFocus::Create => if t == AnimationType::Grid {
            AnimationConfigFocus::VerticalBleed
        } else {
            AnimationConfigFocus::Fps
        },
    }
}

fn animation_focus_right(f: AnimationConfigFocus, t: AnimationType) -> (r: AnimationConfigFocus)
    ensures
        r == anim_focus_right(f, t),
{
    match f {
        AnimationConfigFocus::Fps => if t == AnimationType::Grid {
            AnimationConfigFocus::Rows
        } else {
            AnimationConfigFocus::Create
        },
        AnimationConfigFocus::Rows => AnimationConfigFocus::Cols,
        AnimationConfigFocus::Cols => AnimationConfigFocus::HorizontalBleed,
        AnimationConfigFocus::HorizontalBleed => AnimationConfigFocus::VerticalBleed,
        AnimationConfigFocus::VerticalBleed => AnimationConfigFocus::Create,
        AnimationConfigFocus::Create => AnimationConfigFocus::Create,
    }
}

fn animation_up(config: &mut AnimationConfig)
    ensures
        anim_settings(*final(config)) == animation_step(*old(config), Key::Up).0,
        final(config).selected_frames == old(config).selected_frames,
        final(config).animation_name == old(config).animation_name,
        final(config).animation_type == old(config).animation_type,
        final(config).grayscale_processing == old(config).grayscale_processing,
{
    match config.focus {
        AnimationConfigFocus::Fps => config.fps = fps_step_up(config.fps),
        AnimationConfigFocus::Rows => config.rows = count_up(config.rows),
        AnimationConfigFocus::Cols => config.cols = count_up(config.cols),
        AnimationConfigFocus::HorizontalBleed => config.horizontal_bleed = next_bleed_level(config.horizontal_bleed),
        AnimationConfigFocus::VerticalBleed => config.vertical_bleed = next_bleed_level(config.vertical_bleed),
        AnimationConfigFocus::Create => {},
    }
}

fn animation_down(config: &mut AnimationConfig)
    ensures
        anim_settings(*final(config)) == animation_step(*old(config), Key::Down).0,
        final(config).selected_frames == old(config).selected_frames,
        final(config).animation_name == old(config).animation_name,
        final(config).animation_type == old(config).animation_type,
        final(config).grayscale_processing == old(config).grayscale_processing,
{
    match config.focus {
        AnimationConfigFocus::Fps => config.fps = fps_step_down(config.fps),
        AnimationConfigFocus::Rows => config.rows = count_down(config.rows),
        AnimationConfigFocus::Cols => config.cols = count_down(config.cols),
        AnimationConfigFocus::HorizontalBleed => config.horizontal_bleed = previous_bleed_level(config.horizontal_bleed),
        AnimationConfigFocus::VerticalBleed => config.vertical_bleed = previous_bleed_level(config.vertical_bleed),
        AnimationConfigFocus::Create => {},
    }
}

/// Applies a key to the animation popup and says what the caller does
/// next: Esc or `q` cancels; Left/Right (`h`/`l`) move the focus (a
/// standard animation has only the FPS field and Create); Up/Down (`k`/`j`)
/// change the focused value; Enter creates the animation.  Only the focus,
/// rate, grid size and bleeds change.
pub fn handle_animation_config_key(config: &mut AnimationConfig, key: &KeyPress) -> (action: AnimationConfigAction)
    ensures
        anim_settings(*final(config)) == animation_step(*old(config), key.code).0,
        action == animation_step(*old(config), key.code).1,
        final(config).selected_frames == old(config).selected_frames,
        final(config).animation_name == old(config).animation_name,
        final(config).animation_type == old(config).animation_type,
        final(config).grayscale_processing == old(config).grayscale_processing,
        old(config).wf() ==> final(config).wf(),
{
    let left = match key.code {
        Key::Left => true,
        Key::Char(c) => c == 'h',
        _ => false,
    };
    let right = match key.code {
        Key::Right => true,
        Key::Char(c) => c == 'l',
        _ => false,
    };
    let up = match key.code {
        Key::Up => true,
        Key::Char(c) => c == 'k',
        _ => false,
    };
    let down = match key.code {
        Key::Down => true,
        Key::Char(c) => c == 'j',
        _ => false,
    };
    let cancel = match key.code {
        Key::Esc => true,
        Key::Char(c) => c == 'q',
        _ => false,
    };
    if cancel {
        return AnimationConfigAction::Cancel;
    }
    if left {
        config.focus = animation_focus_left(config.focus, config.animation_type);
        return AnimationConfigAction::Continue;
    }
    if right {
        config.focus = animation_focus_right(config.focus, config.animation_type);
        return AnimationConfigAction::Continue;
    }
    if up {
        animation_up(config);
        return AnimationConfigAction::Continue;
    }
    if down {
        animation_down(config);
        return AnimationConfigAction::Continue;
    }
    if key.code == Key::Enter {
        return AnimationConfigAction::Create;
    }
    AnimationConfigAction::Continue
}

// ---------------------------------------------------------------------------
// Grayscale options editor
// ---------------------------------------------------------------------------
pub const GRAYSCALE_BRIGHTNESS_MIN: i16 = -80;
pub const GRAYSCALE_BRIGHTNESS_MAX: i16 = 80;
pub const GRAYSCALE_CONTRAST_MIN: i16 = -80;
pub const GRAYSCALE_CONTRAST_MAX: i16 = 80;
pub const GRAYSCALE_GAMMA_MIN: u16 = 50;
pub const GRAYSCALE_GAMMA_MAX: u16 = 200;

/// The knob of the grayscale editor that has the focus.
#[derive(Debug, Clone, Copy, PartialEq, Eq, Structural)]
pub enum GrayscaleKnobFocus {
    Brightness,
    Contrast,
    Gamma,
}

/// The grayscale editor: the options it was opened with and the draft.
#[derive(Debug, Clone, Copy, PartialEq, Eq, Structural)]
pub struct GrayscaleOptionsEditor {
    pub original: GrayscaleOptions,
    pub draft: GrayscaleOptions,
    pub focus: GrayscaleKnobFocus,
}

pub fn rotate_grayscale_knob_left(editor: &mut GrayscaleOptionsEditor)
    ensures
        final(editor).focus == (match old(editor).focus {
            GrayscaleKnobFocus::Brightness => GrayscaleKnobFocus::Brightness,
            GrayscaleKnobFocus::Contrast => GrayscaleKnobFocus::Brightness,
            GrayscaleKnobFocus::Gamma => GrayscaleKnobFocus::Contrast,
        }),
        final(editor).original == old(editor).original,
        final(editor).draft == old(editor).draft,
{
    editor.focus = match editor.focus {
        GrayscaleKnobFocus::Brightness => GrayscaleKnobFocus::Brightness,
        GrayscaleKnobFocus::Contrast => GrayscaleKnobFocus::Brightness,
        GrayscaleKnobFocus::Gamma => GrayscaleKnobFocus::Contrast,
    };
}

pub fn rotate_grayscale_knob_right(editor: &mut GrayscaleOptionsEditor)
    ensures
        final(editor).focus == (match old(editor).focus {
            GrayscaleKnobFocus::Brightness => GrayscaleKnobFocus::Contrast,
            GrayscaleKnobFocus::Contrast => GrayscaleKnobFocus::Gamma,
            GrayscaleKnobFocus::Gamma => GrayscaleKnobFocus::Gamma,
        }),
        final(editor).original == old(editor).original,
        final(editor).draft == old(editor).draft,
{
    editor.focus = match editor.focus {
        GrayscaleKnobFocus::Brightness => GrayscaleKnobFocus::Contrast,
        GrayscaleKnobFocus::Contrast => GrayscaleKnobFocus::Gamma,
        GrayscaleKnobFocus::Gamma => GrayscaleKnobFocus::Gamma,
    };
}

fn clamp_i16(v: i32, lo: i16, hi: i16) -> (r: i16)
    requires
        lo <= hi,
    ensures
        r == clamp_int(v as int, lo as int, hi as int),
{
    if v < lo as i32 {
        lo
    } else if v > hi as i32 {
        hi
    } else {
        v as i16
    }
}

/// Tones within their ranges: brightness and contrast in -80..=80, gamma
/// in 50..=200 percent.
pub open spec fn grayscale_in_range(o: GrayscaleOptions) -> bool {
    &&& GRAYSCALE_BRIGHTNESS_MIN <= o.brightness <= GRAYSCALE_BRIGHTNESS_MAX
    &&& GRAYSCALE_CONTRAST_MIN <= o.contrast <= GRAYSCALE_CONTRAST_MAX
    &&& GRAYSCALE_GAMMA_MIN <= o.gamma_percent <= GRAYSCALE_GAMMA_MAX
}

/// Turns the focused knob of the draft by `direction` steps: brightness
/// and contrast by one within -80..=80, gamma by five percent within
/// 50..=200 (brightness and contrast add with saturation first).  A draft
/// within the ranges stays within them.
pub fn adjust_grayscale_editor(editor: &mut GrayscaleOptionsEditor, direction: i16)
    ensures
        grayscale_in_range(old(editor).draft) ==> grayscale_in_range(final(editor).draft),
        final(editor).focus == old(editor).focus,
        final(editor).original == old(editor).original,
        old(editor).focus == GrayscaleKnobFocus::Brightness ==> {
            &&& final(editor).draft.brightness == clamp_int(
                clamp_int(old(editor).draft.brightness + direction, i16::MIN as int, i16::MAX as int),
                GRAYSCALE_BRIGHTNESS_MIN as int,
                GRAYSCALE_BRIGHTNESS_MAX as int,
            )
            &&& final(editor).draft.contrast == old(editor).draft.contrast
            &&& final(editor).draft.gamma_percent == old(editor).draft.gamma_percent
        },
        old(editor).focus == GrayscaleKnobFocus::Contrast ==> {
            &&& final(editor).draft.contrast == clamp_int(
                clamp_int(old(editor).draft.contrast + direction, i16::MIN as int, i16::MAX as int),
                GRAYSCALE_CONTRAST_MIN as int,
                GRAYSCALE_CONTRAST_MAX as int,
            )
            &&& final(editor).draft.brightness == old(editor).draft.brightness
            &&& final(editor).draft.gamma_percent == old(editor).draft.gamma_percent
        },
        old(editor).focus == GrayscaleKnobFocus::Gamma ==> {
            &&& final(editor).draft.gamma_percent == clamp_int(
                old(editor).draft.gamma_percent + direction * 5,
                GRAYSCALE_GAMMA_MIN as int,
                GRAYSCALE_GAMMA_MAX as int,
            )
            &&& final(editor).draft.brightness == old(editor).draft.brightness
            &&& final(editor).draft.contrast == old(editor).draft.contrast
        },
{
    match editor.focus {
        GrayscaleKnobFocus::Brightness => {
            let next = clamp_i16(editor.draft.brightness as i32 + direction as i32, i16::MIN, i16::MAX);
            editor.draft.brightness = clamp_i16(next as i32, GRAYSCALE_BRIGHTNESS_MIN, GRAYSCALE_BRIGHTNESS_MAX);
        },
        GrayscaleKnobFocus::Contrast => {
            let next = clamp_i16(editor.draft.contrast as i32 + direction as i32, i16::MIN, i16::MAX);
            editor.draft.contrast = clamp_i16(next as i32, GRAYSCALE_CONTRAST_MIN, GRAYSCALE_CONTRAST_MAX);
        },
        GrayscaleKnobFocus::Gamma => {
            let next = editor.draft.gamma_percent as i32 + direction as i32 * 5;
            let g = if next < GRAYSCALE_GAMMA_MIN as i32 {
                GRAYSCALE_GAMMA_MIN
            } else if next > GRAYSCALE_GAMMA_MAX as i32 {
                GRAYSCALE_GAMMA_MAX
            } else {
                next as u16
            };
            editor.draft.gamma_percent = g;
        },
    }
}

// ---------------------------------------------------------------------------
// Import settings
// ---------------------------------------------------------------------------
/// The grayscale options of a fresh import: no brightness or contrast
/// change, gamma 100%.
pub open spec fn default_grayscale() -> GrayscaleOptions {
    GrayscaleOptions { brightness: 0, contrast: 0, gamma_percent: 100 }
}

/// The tweaking step of the creation popup.
#[derive(Debug, Clone)]
pub struct AnimationImportSettingsState {
    pub focus: AnimationImportSettingsFocus,
    pub grayscale_enabled: bool,
    pub grayscale_options: GrayscaleOptions,
    pub threshold: u8,
    pub grayscale_editor: Option<GrayscaleOptionsEditor>,
    pub export_frame_count: u16,
    pub preview_frame_index: usize,
    pub last_exported_test_image: Option<String>,
}

impl Default for AnimationImportSettingsState {
    fn default() -> (r: Self)
        ensures
            r.focus == AnimationImportSettingsFocus::Continue,
            r.grayscale_enabled,
            r.grayscale_options == default_grayscale(),
            r.threshold == 64,
            r.grayscale_editor is None,
            r.export_frame_count == 5,
            r.preview_frame_index == 0,
            r.last_exported_test_image is None,
    {
        AnimationImportSettingsState {
            focus: AnimationImportSettingsFocus::Continue,
            grayscale_enabled: true,
            grayscale_options: GrayscaleOptions { brightness: 0, contrast: 0, gamma_percent: 100 },
            threshold: 64,
            grayscale_editor: None,
            export_frame_count: 5,
            preview_frame_index: 0,
            last_exported_test_image: None,
        }
    }
}

/// Whether the tones are those of a fresh import.
pub fn grayscale_options_are_default(options: GrayscaleOptions) -> (r: bool)
    ensures
        r == (options == default_grayscale()),
{
    options.brightness == 0 && options.contrast == 0 && options.gamma_percent == 100
}

/// The processing an import is made with under these settings.
pub fn animation_import_processing_options(settings: &AnimationImportSettingsState) -> (r: ImportProcessingOptions)
    ensures
        r.grayscale_enabled == settings.grayscale_enabled,
        r.grayscale == settings.grayscale_options,
{
    ImportProcessingOptions { grayscale_enabled: settings.grayscale_enabled, grayscale: settings.grayscale_options }
}

fn focus_index(visible: &Vec<AnimationImportSettingsFocus>, f: AnimationImportSettingsFocus) -> (r: Option<usize>)
    ensures
        r matches Some(i) ==> i < visible@.len() && visible@[i as int] == f && forall|j: int| 0 <= j < i ==> visible@[j] != f,
        r is None ==> !visible@.contains(f),
{
    let mut i: usize = 0;
    while i < visible.len()
        invariant
            i <= visible@.len(),
            forall|j: int| 0 <= j < i ==> visible@[j] != f,
        decreases visible@.len() - i,
    {
        if visible[i] == f {
            return Some(i);
        }
        i = i + 1;
    }
    None
}

/// A focus the current kind does not show falls back to Continue.
pub fn normalize_import_settings_focus(settings: &mut AnimationImportSettingsState, kind: HomeCreationKind)
    ensures
        final(settings).focus == (if visible_focuses(kind).contains(old(settings).focus) {
            old(settings).focus
        } else {
            AnimationImportSettingsFocus::Continue
        }),
        final(settings).grayscale_enabled == old(settings).grayscale_enabled,
        final(settings).grayscale_options == old(settings).grayscale_options,
        final(settings).threshold == old(settings).threshold,
        final(settings).grayscale_editor == old(settings).grayscale_editor,
        final(settings).export_frame_count == old(settings).export_frame_count,
        final(settings).preview_frame_index == old(settings).preview_frame_index,
        final(settings).last_exported_test_image == old(settings).last_exported_test_image,
{
    let visible = import_settings_visible_focuses(kind);
    if focus_index(&visible, settings.focus).is_none() {
        settings.focus = AnimationImportSettingsFocus::Continue;
    }
}

/// The position of `f` among the shown controls (the first), if shown.
pub open spec fn position_of(s: Seq<AnimationImportSettingsFocus>, f: AnimationImportSettingsFocus) -> Option<int> {
    if s.contains(f) {
        Some(choose|i: int| 0 <= i < s.len() && s[i] == f && forall|j: int| 0 <= j < i ==> s[j] != f)
    } else {
        None
    }
}

/// The focus after moving one control back (`direction < 0`) or forward
/// among the controls the kind shows, stopping at either end; a focus that
/// is not shown counts as Continue.
pub open spec fn moved_focus(kind: HomeCreationKind, f: AnimationImportSettingsFocus, direction: i8) -> AnimationImportSettingsFocus {
    let v = visible_focuses(kind);
    let current = match position_of(v, f) {
        Some(i) => i,
        None => match position_of(v, AnimationImportSettingsFocus::Continue) {
            Some(i) => i,
            None => 0,
        },
    };
    let next = if direction < 0 {
        if current > 0 { current - 1 } else { 0 }
    } else if current + 1 < v.len() {
        current + 1
    } else {
        v.len() - 1
    };
    v[next]
}

proof fn lemma_position_of(s: Seq<AnimationImportSettingsFocus>, f: AnimationImportSettingsFocus, i: int)
    requires
        0 <= i < s.len(),
        s[i] == f,
        forall|j: int| 0 <= j < i ==> s[j] != f,
    ensures
        position_of(s, f) == Some(i),
{
    let k = choose|k: int| 0 <= k < s.len() && s[k] == f && forall|j: int| 0 <= j < k ==> s[j] != f;
    assert(s.contains(f));
    if k < i {
        assert(s[k] != f);
    } else if k > i {
        assert(s[i] != f);
    }
}

pub fn move_import_settings_focus(settings: &mut AnimationImportSettingsState, kind: HomeCreationKind, direction: i8)
    ensures
        final(settings).focus == moved_focus(kind, old(settings).focus, direction),
        final(settings).grayscale_enabled == old(settings).grayscale_enabled,
        final(settings).grayscale_options == old(settings).grayscale_options,
        final(settings).threshold == old(settings).threshold,
        final(settings).grayscale_editor == old(settings).grayscale_editor,
        final(settings).export_frame_count == old(settings).export_frame_count,
        final(settings).preview_frame_index == old(settings).preview_frame_index,
        final(settings).last_exported_test_image == old(settings).last_exported_test_image,
{
    let visible = import_settings_visible_focuses(kind);
    let current = match focus_index(&visible, settings.focus) {
        Some(i) => {
            proof {
                lemma_position_of(visible@, settings.focus, i as int);
            }
            i
        },
        None => match focus_index(&visible, AnimationImportSettingsFocus::Continue) {
            Some(i) => {
                proof {
                    lemma_position_of(visible@, AnimationImportSettingsFocus::Continue, i as int);
                }
                i
            },
            None => 0,
        },
    };
    proof {
        assert(visible@.len() >= 4);
    }
    let next = if direction < 0 {
        if current > 0 { current - 1 } else { 0 }
    } else if current + 1 < visible.len() {
        current + 1
    } else {
        visible.len() - 1
    };
    settings.focus = visible[next];
}

/// Whether Enter on the tweaking step moves the workflow on (rather than
/// acting on the focused control); never while the grayscale editor is
/// open.
pub fn import_settings_enter_continues_workflow(settings: &AnimationImportSettingsState, kind: HomeCreationKind) -> (r: bool)
    ensures
        r == (settings.grayscale_editor is None && match settings.focus {
            AnimationImportSettingsFocus::Continue | AnimationImportSettingsFocus::Back
            | AnimationImportSettingsFocus::SkipAll | AnimationImportSettingsFocus::Threshold => true,
            AnimationImportSettingsFocus::FramesButton => is_animated(kind),
            _ => false,
        }),
{
    if settings.grayscale_editor.is_some() {
        return false;
    }
    match settings.focus {
        AnimationImportSettingsFocus::Continue | AnimationImportSettingsFocus::Back
        | AnimationImportSettingsFocus::SkipAll | AnimationImportSettingsFocus::Threshold => true,
        AnimationImportSettingsFocus::FramesButton => crate::controls::is_animated_home_creation(kind),
        _ => false,
    }
}

// ---------------------------------------------------------------------------
// Confirmations and notices
// ---------------------------------------------------------------------------
/// The buttons of the delete-project confirmation.
pub const DELETE_CONFIRM_CANCEL_INDEX: usize = 0;
pub const DELETE_CONFIRM_DELETE_INDEX: usize = 1;

/// What the caller does after a key in the delete-project confirmation.
#[derive(Debug, Clone, Copy, PartialEq, Eq, Structural)]
pub enum DeleteConfirmAction {
    /// Close the confirmation; nothing is deleted.
    Cancel,
    /// Delete the project.
    Delete,
    /// The selection moved: clear the status line.
    ClearStatus,
    /// Nothing to do.
    Ignore,
}

/// Esc, `n` or `q` cancel; Left/`h` selects Cancel and Right/`l` Delete;
/// Enter or `y` carries out the selected button.
pub fn handle_delete_project_confirmation_key(selection: &mut Option<usize>, key: &KeyPress) -> (r: DeleteConfirmAction)
    ensures
        (key.code == Key::Esc || key.code == Key::Char('n') || key.code == Key::Char('q')) ==> r
            == DeleteConfirmAction::Cancel && *final(selection) == *old(selection),
        is_left_key(key.code) ==> r == DeleteConfirmAction::ClearStatus && *final(selection) == (
        if (*old(selection)) is Some {
            Some(DELETE_CONFIRM_CANCEL_INDEX)
        } else {
            None
        }),
        is_right_key(key.code) ==> r == DeleteConfirmAction::ClearStatus && *final(selection) == (
        if (*old(selection)) is Some {
            Some(DELETE_CONFIRM_DELETE_INDEX)
        } else {
            None
        }),
        (key.code == Key::Enter || key.code == Key::Char('y')) ==> *final(selection) == *old(selection)
            && r == (match *old(selection) {
            Some(0) => DeleteConfirmAction::Cancel,
            Some(1) => DeleteConfirmAction::Delete,
            _ => DeleteConfirmAction::Ignore,
        }),
        !(key.code == Key::Esc || key.code == Key::Char('n') || key.code == Key::Char('q') || is_left_key(key.code)
            || is_right_key(key.code) || key.code == Key::Enter || key.code == Key::Char('y')) ==> r
            == DeleteConfirmAction::Ignore && *final(selection) == *old(selection),
{
    let k = key.code;
    if k == Key::Esc || k == Key::Char('n') || k == Key::Char('q') {
        return DeleteConfirmAction::Cancel;
    }
    if k == Key::Left || k == Key::Char('h') {
        if selection.is_some() {
            *selection = Some(DELETE_CONFIRM_CANCEL_INDEX);
        }
        return DeleteConfirmAction::ClearStatus;
    }
    if k == Key::Right || k == Key::Char('l') {
        if selection.is_some() {
            *selection = Some(DELETE_CONFIRM_DELETE_INDEX);
        }
        return DeleteConfirmAction::ClearStatus;
    }
    if k == Key::Enter || k == Key::Char('y') {
        return match *selection {
            Some(0) => DeleteConfirmAction::Cancel,
            Some(1) => DeleteConfirmAction::Delete,
            _ => DeleteConfirmAction::Ignore,
        };
    }
    DeleteConfirmAction::Ignore
}

/// Enter, Esc and Space close the first-install notice.
pub fn closes_first_install_notice(key: &KeyPress) -> (r: bool)
    ensures
        r == (key.code == Key::Enter || key.code == Key::Esc || key.code == Key::Char(' ')),
{
    key.code == Key::Enter || key.code == Key::Esc || key.code == Key::Char(' ')
}

pub open spec fn tweak_progress(index: nat, queue_len: nat) -> Seq<char> {
    let total: nat = if queue_len > 1 { queue_len } else { 1 };
    let current: nat = if index + 1 < total { index + 1 } else { total };
    "Image "@ + decimal(current) + seq!['/'] + decimal(total) + "  "@
}

/// `Image i/n` over the sources being tweaked one after another.
pub fn glyph_tweak_progress_label(queue_len: usize, index: usize) -> (r: String)
    ensures
        r@ == tweak_progress(index as nat, queue_len as nat),
{
    let total = if queue_len > 1 { queue_len } else { 1 };
    let current = if index < total - 1 { index + 1 } else { total };
    let mut out: Vec<char> = Vec::new();
    push_str(&mut out, "Image ");
    push_decimal(&mut out, current as u64);
    out.push('/');
    push_decimal(&mut out, total as u64);
    push_str(&mut out, "  ");
    proof {
        assert(out@ =~= tweak_progress(index as nat, queue_len as nat));
    }
    string_of(&out)
}

/// Continuing from the last queued source finishes the workflow.
pub fn glyph_tweak_continue_finishes_workflow(index: usize, queue_len: usize) -> (r: bool)
    ensures
        r == (index + 1 >= queue_len),
{
    index >= queue_len || queue_len - index <= 1
}

pub fn glyph_tweak_continue_label(index: usize, queue_len: usize) -> (r: &'static str)
    ensures
        r@ == (if index + 1 >= queue_len { "Finish"@ } else { "Next"@ }),
{
    if glyph_tweak_continue_finishes_workflow(index, queue_len) {
        "Finish"
    } else {
        "Next"
    }
}

} // verus!
