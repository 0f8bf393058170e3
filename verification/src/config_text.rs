//! The text of the grid and animation popups: their headers, the captions
//! of their fields, and which field is lit.
use vstd::prelude::*;
use crate::config_keys::{AnimationConfig, AnimationConfigFocus, GridConfig};
use crate::keys::{display_name, source_display_name};
use crate::model::AnimationType;
use crate::text::{decimal, push_decimal, push_str, string_of, chars_of, push_all};

verus! {

/// The captions of the grid popup: its header, the rows and columns
/// fields, and the create button.
pub open spec fn grid_captions(c: GridConfig) -> (Seq<char>, Seq<char>, Seq<char>, Seq<char>) {
    (
        " Configuring grid for: "@ + display_name(c.source_key@) + " "@,
        " Rows: "@ + decimal(c.rows as nat) + " "@,
        " Cols: "@ + decimal(c.cols as nat) + " "@,
        " Create Grid "@,
    )
}

pub fn grid_config_captions(c: &GridConfig) -> (r: (String, String, String, String))
    ensures
        (r.0@, r.1@, r.2@, r.3@) == grid_captions(*c),
{
    let name = source_display_name(c.source_key.as_str());
    let mut h: Vec<char> = Vec::new();
    push_str(&mut h, " Configuring grid for: ");
    let n = chars_of(name.as_str());
    push_all(&mut h, &n);
    push_str(&mut h, " ");
    let mut rows: Vec<char> = Vec::new();
    push_str(&mut rows, " Rows: ");
    push_decimal(&mut rows, c.rows as u64);
    push_str(&mut rows, " ");
    let mut cols: Vec<char> = Vec::new();
    push_str(&mut cols, " Cols: ");
    push_decimal(&mut cols, c.cols as u64);
    push_str(&mut cols, " ");
    let mut create: Vec<char> = Vec::new();
    push_str(&mut create, " Create Grid ");
    (string_of(&h), string_of(&rows), string_of(&cols), string_of(&create))
}

/// The captions of the animation popup: its header (type and number of
/// frames), the name line, the fps, rows and columns fields, and the
/// create button (with the spinner frame while the animation is made).
pub open spec fn animation_captions(c: AnimationConfig, creating: Option<Seq<char>>) -> (
    Seq<char>,
    Seq<char>,
    Seq<char>,
    Seq<char>,
    Seq<char>,
    Seq<char>,
) {
    (
        " Configuring "@ + (if c.animation_type == AnimationType::Grid { "grid"@ } else { "standard"@ })
            + " animation (frames: "@ + decimal(c.selected_frames@.len()) + ") "@,
        " Name: "@ + c.animation_name@ + " "@,
        " FPS: "@ + decimal(c.fps as nat) + " "@,
        " Rows: "@ + decimal(c.rows as nat) + " "@,
        " Cols: "@ + decimal(c.cols as nat) + " "@,
        match creating {
            Some(frame) => " Create Animation "@ + frame + " "@,
            None => " Create Animation "@,
        },
    )
}

pub fn animation_config_captions(c: &AnimationConfig, creating_spinner: Option<&str>) -> (r: (String, String, String, String, String, String))
    ensures
        (r.0@, r.1@, r.2@, r.3@, r.4@, r.5@) == animation_captions(
            *c,
            match creating_spinner {
                Some(f) => Some(f@),
                None => None,
            },
        ),
{
    let mut h: Vec<char> = Vec::new();
    push_str(&mut h, " Configuring ");
    match c.animation_type {
        AnimationType::Grid => push_str(&mut h, "grid"),
        AnimationType::Standard => push_str(&mut h, "standard"),
    }
    push_str(&mut h, " animation (frames: ");
    push_decimal(&mut h, c.selected_frames.len() as u64);
    push_str(&mut h, ") ");
    let mut name: Vec<char> = Vec::new();
    push_str(&mut name, " Name: ");
    push_str(&mut name, c.animation_name.as_str());
    push_str(&mut name, " ");
    let mut fps: Vec<char> = Vec::new();
    push_str(&mut fps, " FPS: ");
    push_decimal(&mut fps, c.fps as u64);
    push_str(&mut fps, " ");
    let mut rows: Vec<char> = Vec::new();
    push_str(&mut rows, " Rows: ");
    push_decimal(&mut rows, c.rows as u64);
    push_str(&mut rows, " ");
    let mut cols: Vec<char> = Vec::new();
    push_str(&mut cols, " Cols: ");
    push_decimal(&mut cols, c.cols as u64);
    push_str(&mut cols, " ");
    let mut create: Vec<char> = Vec::new();
    push_str(&mut create, " Create Animation ");
    if let Some(frame) = creating_spinner {
        push_str(&mut create, frame);
        push_str(&mut create, " ");
    }
    (string_of(&h), string_of(&name), string_of(&fps), string_of(&rows), string_of(&cols), string_of(&create))
}

/// Whether the animation popup shows the grid fields (rows, columns and
/// the two bleeds).
pub fn animation_config_shows_grid_fields(c: &AnimationConfig) -> (r: bool)
    ensures
        r == (c.animation_type == AnimationType::Grid),
{
    match c.animation_type {
        AnimationType::Grid => true,
        AnimationType::Standard => false,
    }
}

/// A field of the animation popup is lit when it has the focus.
pub fn animation_field_lit(c: &AnimationConfig, field: AnimationConfigFocus) -> (r: bool)
    ensures
        r == (c.focus == field),
{
    c.focus == field
}

} // verus!
