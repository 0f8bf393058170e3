//! Text layout of the terminal UI: scroll windows and scrollbars, centred
//! labels, counters and the fixed messages of the Home panel.
use vstd::prelude::*;
use crate::text::{
    chars_equal, chars_of, contains_seq, contains_str, decimal, lower_chars, lower_seq, push_all, push_decimal,
    push_str, string_of,
};

verus! {

// ---------------------------------------------------------------------------
// Counters
// ---------------------------------------------------------------------------
/// A count as shown in the PUA usage line: `1234` is `1.2k`.
pub open spec fn count_k(value: nat) -> Seq<char> {
    if value >= 1000 {
        decimal(value / 1000) + seq!['.'] + decimal((value % 1000) / 100) + seq!['k']
    } else {
        decimal(value)
    }
}

fn push_count_k(out: &mut Vec<char>, value: usize)
    ensures
        final(out)@ == old(out)@ + count_k(value as nat),
{
    if value >= 1000 {
        push_decimal(out, (value / 1000) as u64);
        out.push('.');
        push_decimal(out, ((value % 1000) / 100) as u64);
        out.push('k');
        proof {
            assert(final(out)@ =~= old(out)@ + count_k(value as nat));
        }
    } else {
        push_decimal(out, value as u64);
    }
}

/// A count, abbreviated to thousands with one decimal from 1000 on.
pub fn format_count_k(value: usize) -> (r: String)
    ensures
        r@ == count_k(value as nat),
{
    let mut out: Vec<char> = Vec::new();
    push_count_k(&mut out, value);
    proof {
        assert(out@ =~= count_k(value as nat));
    }
    string_of(&out)
}

/// How the supplementary Private Use Area planes are occupied on this
/// machine.
#[derive(Debug, Clone, Copy, PartialEq, Eq, Structural)]
pub struct PuaUsageSummary {
    pub petiglyph_occupied: usize,
    pub supplementary_pua_total: usize,
    pub external_occupied: usize,
    pub available: usize,
}

pub open spec fn pua_usage_line(summary: Option<PuaUsageSummary>) -> Seq<char> {
    match summary {
        None => "supplementary PUA usage unavailable on this machine."@,
        Some(s) => "PUA usage: petiglyph "@ + count_k(s.petiglyph_occupied as nat) + " / "@
            + count_k(s.supplementary_pua_total as nat) + " used; external "@ + count_k(
            s.external_occupied as nat,
        ) + "; available "@ + count_k(s.available as nat),
    }
}

/// The line of the Home panel that reports PUA usage.
pub fn supplementary_pua_usage_line(summary: Option<&PuaUsageSummary>) -> (r: String)
    ensures
        r@ == pua_usage_line(
            match summary {
                Some(s) => Some(*s),
                None => None,
            },
        ),
{
    match summary {
        None => "supplementary PUA usage unavailable on this machine.".to_owned(),
        Some(s) => {
            let mut out: Vec<char> = Vec::new();
            push_str(&mut out, "PUA usage: petiglyph ");
            push_count_k(&mut out, s.petiglyph_occupied);
            push_str(&mut out, " / ");
            push_count_k(&mut out, s.supplementary_pua_total);
            push_str(&mut out, " used; external ");
            push_count_k(&mut out, s.external_occupied);
            push_str(&mut out, "; available ");
            push_count_k(&mut out, s.available);
            proof {
                assert(out@ =~= pua_usage_line(Some(*s)));
            }
            string_of(&out)
        },
    }
}

// ---------------------------------------------------------------------------
// Terminal restart notice
// ---------------------------------------------------------------------------
pub open spec fn restart_tail() -> Seq<char> {
    " terminals to show new glyphs; if they still appear as errors or [?], reboot the computer"@
}

pub open spec fn restart_warning(terminal: Option<Seq<char>>) -> Seq<char> {
    match terminal {
        Some(name) => "restart all "@ + name + restart_tail(),
        None => "restart all"@ + restart_tail(),
    }
}

/// What to tell the user after fonts were installed: restart the terminal
/// (named when it was recognised).
pub fn installed_fonts_restart_warning(terminal_name: Option<&str>) -> (r: String)
    ensures
        r@ == restart_warning(
            match terminal_name {
                Some(n) => Some(n@),
                None => None,
            },
        ),
{
    let mut out: Vec<char> = Vec::new();
    match terminal_name {
        Some(name) => {
            push_str(&mut out, "restart all ");
            push_str(&mut out, name);
        },
        None => {
            push_str(&mut out, "restart all");
        },
    }
    push_str(&mut out, " terminals to show new glyphs; if they still appear as errors or [?], reboot the computer");
    proof {
        assert(out@ =~= restart_warning(
            match terminal_name {
                Some(n) => Some(n@),
                None => None,
            },
        ));
    }
    string_of(&out)
}

/// The terminal named by the environment: `TERM_PROGRAM` and `TERM`
/// (compared in lower case) and whether the marker variables of Ghostty,
/// Alacritty, WezTerm and Kitty are set.
pub open spec fn terminal_name(
    term_program: Seq<char>,
    term: Seq<char>,
    ghostty_resources_dir: bool,
    alacritty_socket: bool,
    wezterm_pane: bool,
    kitty_pid: bool,
) -> Option<Seq<char>> {
    let p = lower_seq(term_program);
    let t = lower_seq(term);
    if contains_seq(p, "ghostty"@) || contains_seq(t, "ghostty"@) || ghostty_resources_dir {
        Some("Ghostty"@)
    } else if contains_seq(p, "alacritty"@) || alacritty_socket {
        Some("Alacritty"@)
    } else if contains_seq(p, "wezterm"@) || wezterm_pane {
        Some("WezTerm"@)
    } else if contains_seq(p, "kitty"@) || contains_seq(t, "kitty"@) || kitty_pid {
        Some("Kitty"@)
    } else {
        None
    }
}

/// Whether a value of the full-repaint variable turns it on: any value
/// but the empty one and, ignoring ASCII case, `0`, `false` and `off`.
pub open spec fn switch_value_on(v: Seq<char>) -> bool {
    !(v.len() == 0 || lower_seq(v) == "0"@ || lower_seq(v) == "false"@ || lower_seq(v) == "off"@)
}

/// Whether every frame is repainted in full, given the value of the
/// variable that asks for it (none when it is not set).
pub fn full_repaint_switch_on(value: Option<&str>) -> (r: bool)
    ensures
        r == (match value {
            Some(v) => switch_value_on(v@),
            None => false,
        }),
{
    let v = match value {
        Some(v) => v,
        None => return false,
    };
    let l = lower_chars(&chars_of(v));
    let zero = chars_of("0");
    let no = chars_of("false");
    let off = chars_of("off");
    !(l.len() == 0 || chars_equal(&l, &zero) || chars_equal(&l, &no) || chars_equal(&l, &off))
}

/// The terminal the UI runs in, as far as the environment tells.
pub fn detected_terminal_name_from(
    term_program: &str,
    term: &str,
    ghostty_resources_dir: bool,
    alacritty_socket: bool,
    wezterm_pane: bool,
    kitty_pid: bool,
) -> (r: Option<String>)
    ensures
        (match r {
            Some(s) => Some(s@),
            None => None,
        }) == terminal_name(
            term_program@,
            term@,
            ghostty_resources_dir,
            alacritty_socket,
            wezterm_pane,
            kitty_pid,
        ),
{
    let p = lower_chars(&chars_of(term_program));
    let t = lower_chars(&chars_of(term));
    if contains_str(&p, "ghostty") || contains_str(&t, "ghostty") || ghostty_resources_dir {
        return Some("Ghostty".to_owned());
    }
    if contains_str(&p, "alacritty") || alacritty_socket {
        return Some("Alacritty".to_owned());
    }
    if contains_str(&p, "wezterm") || wezterm_pane {
        return Some("WezTerm".to_owned());
    }
    if contains_str(&p, "kitty") || contains_str(&t, "kitty") || kitty_pid {
        return Some("Kitty".to_owned());
    }
    None
}

// ---------------------------------------------------------------------------
// Scrolling
// ---------------------------------------------------------------------------
/// The rows `start..end` shown of `total` rows in a viewport of `viewport`
/// rows, keeping the selection near the middle.
pub open spec fn window_bounds(total: nat, selected: nat, viewport: nat) -> (nat, nat) {
    if total == 0 || viewport == 0 {
        (0, 0)
    } else if total <= viewport {
        (0, total)
    } else {
        let sel: nat = if selected < total { selected } else { (total - 1) as nat };
        let half = viewport / 2;
        let start0: nat = if sel >= half { (sel - half) as nat } else { 0 };
        let max_start = (total - viewport) as nat;
        let start: nat = if start0 > max_start { max_start } else { start0 };
        (start, start + viewport)
    }
}

pub fn visible_window_bounds(total_rows: usize, selected_row: usize, viewport_rows: usize) -> (r: (usize, usize))
    ensures
        (r.0 as nat, r.1 as nat) == window_bounds(total_rows as nat, selected_row as nat, viewport_rows as nat),
        r.0 <= r.1 <= total_rows,
        total_rows > 0 && viewport_rows > 0 ==> ({
            let sel = if selected_row < total_rows { selected_row } else { (total_rows - 1) as usize };
            &&& r.0 <= sel < r.1
            &&& r.1 - r.0 == (if total_rows < viewport_rows { total_rows } else { viewport_rows })
        }),
{
    if total_rows == 0 || viewport_rows == 0 {
        return (0, 0);
    }
    if total_rows <= viewport_rows {
        return (0, total_rows);
    }
    let selected = if selected_row < total_rows - 1 { selected_row } else { total_rows - 1 };
    let half = viewport_rows / 2;
    let mut start = if selected >= half { selected - half } else { 0 };
    let max_start = total_rows - viewport_rows;
    if start > max_start {
        start = max_start;
    }
    let end = start + viewport_rows;
    (start, end)
}

pub open spec fn sat(x: int) -> nat {
    if x > usize::MAX {
        usize::MAX as nat
    } else if x < 0 {
        0
    } else {
        x as nat
    }
}

/// The position and height of a scrollbar thumb: `(top, height)`.
pub open spec fn thumb_geometry(total: nat, viewport: nat, start: nat) -> (nat, nat) {
    if total == 0 || viewport == 0 || total <= viewport {
        (0, 0)
    } else {
        let raw: nat = ((viewport * viewport + total - 1) as nat) / total;
        let height: nat = if raw < 1 { 1 } else if raw > viewport { viewport } else { raw };
        let track = (viewport - height) as nat;
        let scrollable = (total - viewport) as nat;
        if track == 0 {
            (0, height)
        } else {
            let top = sat((start * track) as int) / scrollable;
            (if top > track { track } else { top }, height)
        }
    }
}

pub fn scrollbar_thumb_geometry(total_rows: usize, viewport_rows: usize, viewport_start: usize) -> (r: (usize, usize))
    requires
        total_rows > viewport_rows > 0 ==> viewport_rows * viewport_rows + total_rows - 1 <= usize::MAX,
    ensures
        (r.0 as nat, r.1 as nat) == thumb_geometry(total_rows as nat, viewport_rows as nat, viewport_start as nat),
        r.0 + r.1 <= viewport_rows,
{
    if total_rows == 0 || viewport_rows == 0 || total_rows <= viewport_rows {
        return (0, 0);
    }
    proof {
        assert(viewport_rows * viewport_rows <= usize::MAX);
        assert(viewport_rows * viewport_rows >= 1) by (nonlinear_arith)
            requires
                viewport_rows > 0,
        ;
    }
    let raw = (viewport_rows * viewport_rows - 1 + total_rows) / total_rows;
    let height = if raw < 1 {
        1
    } else if raw > viewport_rows {
        viewport_rows
    } else {
        raw
    };
    let track = viewport_rows - height;
    let scrollable = total_rows - viewport_rows;
    if track == 0 {
        return (0, height);
    }
    let product = viewport_start.checked_mul(track);
    let scaled = match product {
        Some(p) => p,
        None => usize::MAX,
    };
    let top = scaled / scrollable;
    proof {
        assert(sat(viewport_start * track) == scaled);
    }
    (if top > track { track } else { top }, height)
}

/// Whether row `row` of a scrollbar lies on the thumb.
pub open spec fn on_thumb(row: nat, top: nat, height: nat) -> bool {
    top <= row && row < sat((top + height) as int)
}

/// The glyphs of a vertical scrollbar `height` rows tall: `█` on the thumb,
/// `│` on the track.
pub fn vertical_scrollbar_lines(height: usize, thumb_top: usize, thumb_height: usize) -> (r: Vec<String>)
    ensures
        r@.len() == height,
        forall|i: int|
            0 <= i < height ==> #[trigger] r@[i]@ == (if on_thumb(i as nat, thumb_top as nat, thumb_height as nat) {
                "█"@
            } else {
                "│"@
            }),
{
    let bottom = match thumb_top.checked_add(thumb_height) {
        Some(b) => b,
        None => usize::MAX,
    };
    let mut lines: Vec<String> = Vec::new();
    let mut row: usize = 0;
    while row < height
        invariant
            row <= height,
            bottom == sat(thumb_top + thumb_height),
            lines@.len() == row,
            forall|i: int|
                0 <= i < row ==> #[trigger] lines@[i]@ == (if on_thumb(i as nat, thumb_top as nat, thumb_height as nat) {
                    "█"@
                } else {
                    "│"@
                }),
        decreases height - row,
    {
        if row >= thumb_top && row < bottom {
            lines.push("█".to_owned());
        } else {
            lines.push("│".to_owned());
        }
        row = row + 1;
    }
    lines
}

// ---------------------------------------------------------------------------
// Labels
// ---------------------------------------------------------------------------
pub open spec fn spaces(n: nat) -> Seq<char> {
    Seq::new(n, |i: int| ' ')
}

fn push_spaces(out: &mut Vec<char>, n: usize)
    ensures
        final(out)@ == old(out)@ + spaces(n as nat),
{
    let mut i: usize = 0;
    while i < n
        invariant
            i <= n,
            out@ == old(out)@ + spaces(i as nat),
        decreases n - i,
    {
        out.push(' ');
        proof {
            assert(spaces((i + 1) as nat) =~= spaces(i as nat).push(' '));
        }
        i = i + 1;
    }
}

/// The dashes of the drop zone's border: two `─`, two spaces, repeated.
pub open spec fn dashes(width: nat) -> Seq<char> {
    Seq::new(width, |i: int| if i % 4 < 2 { '─' } else { ' ' })
}

pub fn dashed_pattern(width: usize) -> (r: String)
    ensures
        r@ == dashes(width as nat),
{
    let mut out: Vec<char> = Vec::new();
    let mut idx: usize = 0;
    while idx < width
        invariant
            idx <= width,
            out@ == dashes(idx as nat),
        decreases width - idx,
    {
        out.push(if idx % 4 < 2 { '─' } else { ' ' });
        proof {
            assert(out@ =~= dashes((idx + 1) as nat));
        }
        idx = idx + 1;
    }
    string_of(&out)
}

/// `label` cut to `width` characters and centred in `width` columns (an odd
/// leftover space goes to the right).
pub open spec fn centered(label: Seq<char>, width: nat) -> Seq<char> {
    let l = if label.len() > width { label.take(width as int) } else { label };
    let padding = (width - l.len()) as nat;
    let left = padding / 2;
    spaces(left) + l + spaces((padding - left) as nat)
}

pub fn center_label(label: &str, width: usize) -> (r: String)
    ensures
        r@ == centered(label@, width as nat),
        r@.len() == width,
{
    let chars = chars_of(label);
    let mut l: Vec<char> = Vec::new();
    let mut i: usize = 0;
    let n = if chars.len() > width { width } else { chars.len() };
    while i < n
        invariant
            i <= n <= chars.len(),
            l@ == chars@.take(i as int),
        decreases n - i,
    {
        l.push(chars[i]);
        proof {
            assert(chars@.take(i + 1) =~= chars@.take(i as int).push(chars@[i as int]));
        }
        i = i + 1;
    }
    proof {
        if chars.len() <= width {
            assert(chars@.take(n as int) =~= chars@);
        }
    }
    let padding = width - n;
    let left = padding / 2;
    let mut out: Vec<char> = Vec::new();
    push_spaces(&mut out, left);
    push_all(&mut out, &l);
    push_spaces(&mut out, padding - left);
    proof {
        assert(out@ =~= centered(label@, width as nat));
    }
    string_of(&out)
}

/// A button caption with one space of padding on each side.
pub fn padded_button_label(label: &str) -> (r: String)
    ensures
        r@ == seq![' '] + label@ + seq![' '],
{
    let mut out: Vec<char> = Vec::new();
    out.push(' ');
    push_str(&mut out, label);
    out.push(' ');
    proof {
        assert(out@ =~= seq![' '] + label@ + seq![' ']);
    }
    string_of(&out)
}

} // verus!
