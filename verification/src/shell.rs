//! The frame of the terminal UI: screen areas, timing of the animation
//! preview and of notices, font task spinners, and clipboard providers.
//! Clock readings are monotonic nanosecond counts.
use vstd::prelude::*;
use crate::codepoints::views;
use crate::installed::{join_with, push_joined};
use crate::model::{AnimationDef, AnimationPreview};
use crate::text::{push_str, string_of};

verus! {

// ---------------------------------------------------------------------------
// Screen areas
// ---------------------------------------------------------------------------
/// A rectangle of terminal cells.
#[derive(Debug, Clone, Copy, PartialEq, Eq, Structural)]
pub struct Rect {
    pub x: u16,
    pub y: u16,
    pub width: u16,
    pub height: u16,
}

/// The smallest and largest terminal the UI lays out for.
pub const TUI_MIN_WIDTH: u16 = 96;
pub const TUI_MIN_HEIGHT: u16 = 40;
pub const TUI_MAX_WIDTH: u16 = 148;
pub const TUI_MAX_HEIGHT: u16 = 92;

impl Rect {
    /// A rectangle that stays on the `u16` plane: its width and height are
    /// cut so that it ends at `u16::MAX` at the latest.
    pub fn new(x: u16, y: u16, width: u16, height: u16) -> (r: Rect)
        ensures
            r.x == x,
            r.y == y,
            r.width == (if width > u16::MAX - x { (u16::MAX - x) as u16 } else { width }),
            r.height == (if height > u16::MAX - y { (u16::MAX - y) as u16 } else { height }),
    {
        let max_width = u16::MAX - x;
        let max_height = u16::MAX - y;
        let width = if width > max_width { max_width } else { width };
        let height = if height > max_height { max_height } else { height };
        Rect { x, y, width, height }
    }

    /// The rectangle ends on the `u16` plane.
    pub open spec fn fits(self) -> bool {
        self.x + self.width <= u16::MAX && self.y + self.height <= u16::MAX
    }
}

pub fn terminal_size_supported(area: Rect) -> (r: bool)
    ensures
        r == (area.width >= TUI_MIN_WIDTH && area.height >= TUI_MIN_HEIGHT),
{
    area.width >= TUI_MIN_WIDTH && area.height >= TUI_MIN_HEIGHT
}

pub open spec fn min16(a: u16, b: u16) -> u16 {
    if a < b {
        a
    } else {
        b
    }
}

pub open spec fn max16(a: u16, b: u16) -> u16 {
    if a > b {
        a
    } else {
        b
    }
}

pub open spec fn sub16(a: u16, b: u16) -> u16 {
    if a > b {
        (a - b) as u16
    } else {
        0
    }
}

/// The part of `area` the UI draws in: at most the largest layout size,
/// centred.
pub open spec fn bounded_viewport(area: Rect) -> Rect {
    let w = min16(area.width, TUI_MAX_WIDTH);
    let h = min16(area.height, TUI_MAX_HEIGHT);
    Rect {
        x: (area.x + sub16(area.width, w) / 2) as u16,
        y: (area.y + sub16(area.height, h) / 2) as u16,
        width: w,
        height: h,
    }
}

pub fn centered_bounded_viewport(area: Rect) -> (r: Rect)
    requires
        area.fits(),
    ensures
        r == bounded_viewport(area),
        r.fits(),
{
    let w = if area.width < TUI_MAX_WIDTH { area.width } else { TUI_MAX_WIDTH };
    let h = if area.height < TUI_MAX_HEIGHT { area.height } else { TUI_MAX_HEIGHT };
    let x = area.x + (area.width - w) / 2;
    let y = area.y + (area.height - h) / 2;
    Rect::new(x, y, w, h)
}

/// A popup at most `max_width` wide (but at least 42 columns and three
/// short of each side where there is room) and `height` rows tall (at
/// least 6, one short of each edge), centred in `area`.
pub open spec fn popup_rect(area: Rect, max_width: u16, height: u16) -> Rect {
    let w = min16(area.width, max16(min16(sub16(area.width, 6), max_width), 42));
    let h = min16(area.height, max16(min16(height, sub16(area.height, 2)), 6));
    Rect {
        x: (area.x + sub16(area.width, w) / 2) as u16,
        y: (area.y + sub16(area.height, h) / 2) as u16,
        width: w,
        height: h,
    }
}

pub fn centered_popup_rect(area: Rect, max_width: u16, height: u16) -> (r: Rect)
    requires
        area.fits(),
    ensures
        r == popup_rect(area, max_width, height),
        r.fits(),
        r.width <= area.width,
        r.height <= area.height,
{
    let inner = if area.width > 6 { area.width - 6 } else { 0 };
    let capped = if inner < max_width { inner } else { max_width };
    let wanted = if capped > 42 { capped } else { 42 };
    let w = if area.width < wanted { area.width } else { wanted };
    let inner_h = if area.height > 2 { area.height - 2 } else { 0 };
    let capped_h = if height < inner_h { height } else { inner_h };
    let wanted_h = if capped_h > 6 { capped_h } else { 6 };
    let h = if area.height < wanted_h { area.height } else { wanted_h };
    let x = area.x + (area.width - w) / 2;
    let y = area.y + (area.height - h) / 2;
    Rect::new(x, y, w, h)
}

// ---------------------------------------------------------------------------
// Timing
// ---------------------------------------------------------------------------
/// How long the "switched project" notice stays up.
pub const SWITCH_NOTICE_NS: u64 = 2_500_000_000;

/// Time from `from` to `to`, zero when `to` is earlier.
pub open spec fn elapsed(from: u64, to: u64) -> nat {
    if to >= from {
        (to - from) as nat
    } else {
        0
    }
}

pub fn switch_notice_visible(started_at: u64, now: u64) -> (r: bool)
    ensures
        r == (elapsed(started_at, now) < SWITCH_NOTICE_NS),
{
    let e = if now >= started_at { now - started_at } else { 0 };
    e < SWITCH_NOTICE_NS
}

/// The time between two frames at `fps` frames per second (at least one).
pub open spec fn frame_interval(fps: u8) -> nat {
    1_000_000_000nat / (if fps == 0 { 1nat } else { fps as nat })
}

pub fn animation_frame_interval(fps: u8) -> (r: u64)
    ensures
        r == frame_interval(fps),
        r > 0,
{
    let f: u64 = if fps == 0 { 1 } else { fps as u64 };
    proof {
        assert(1_000_000_000u64 / f > 0) by (nonlinear_arith)
            requires
                1 <= f <= 255,
        ;
    }
    1_000_000_000u64 / f
}

proof fn lemma_next_frame(a: int, c: int)
    requires
        c > 1,
        a >= 0,
    ensures
        ((a % c) + 1) % c == (a + 1) % c,
        (a % c) % c == a % c,
{
    vstd::arithmetic::div_mod::lemma_add_mod_noop(a, 1, c);
    vstd::arithmetic::div_mod::lemma_small_mod(1, c as nat);
    vstd::arithmetic::div_mod::lemma_mod_twice(a, c);
}

proof fn lemma_div_step(e: int, d: int)
    requires
        d > 0,
        e >= d,
    ensures
        (e - d) / d == e / d - 1,
        e / d >= 1,
{
    vstd::arithmetic::div_mod::lemma_div_minus_one(e, d);
    vstd::arithmetic::div_mod::lemma_div_is_ordered(d, e, d);
    vstd::arithmetic::div_mod::lemma_div_by_self(d);
}

/// Advances the preview by the whole frame intervals that passed since its
/// last frame: the frame index moves on by that many frames (modulo the
/// frame count) and the last frame time by that many intervals, so that
/// the remainder carries over to the next step.  An animation of one frame
/// stays as it is.
pub fn step_animation_preview(preview: &mut AnimationPreview, animation: &AnimationDef, now: u64)
    ensures
        final(preview).animation_name == old(preview).animation_name,
        ({
            let count = animation.frames@.len();
            let steps = elapsed(old(preview).last_frame_at, now) / frame_interval(animation.fps);
            if count <= 1 || steps == 0 {
                final(preview).frame_index == old(preview).frame_index
                    && final(preview).last_frame_at == old(preview).last_frame_at
            } else {
                &&& final(preview).frame_index == ((old(preview).frame_index + steps) as nat) % count
                &&& final(preview).last_frame_at == old(preview).last_frame_at + steps
                    * frame_interval(animation.fps)
            }
        }),
{
    let count = animation.frames.len();
    if count <= 1 {
        return;
    }
    let interval = animation_frame_interval(animation.fps);
    let ghost start_index = preview.frame_index as int;
    let ghost start_at = preview.last_frame_at as int;
    let ghost total: int = elapsed(preview.last_frame_at, now) as int / interval as int;
    let ghost mut done: int = 0;
    while now >= preview.last_frame_at && now - preview.last_frame_at >= interval
        invariant
            interval as nat == frame_interval(animation.fps),
            interval > 0,
            count == animation.frames@.len(),
            count > 1,
            preview.animation_name == old(preview).animation_name,
            start_at == old(preview).last_frame_at,
            start_index == old(preview).frame_index,
            total == elapsed(start_at as u64, now) as int / interval as int,
            0 <= done <= total,
            preview.last_frame_at == start_at + done * interval,
            done == 0 ==> preview.frame_index == start_index,
            done > 0 ==> preview.frame_index == (start_index + done) % (count as int),
            elapsed(preview.last_frame_at, now) as int / interval as int == total - done,
        decreases total - done,
    {
        proof {
            lemma_div_step((now - preview.last_frame_at) as int, interval as int);
            lemma_next_frame(start_index, count as int);
            lemma_next_frame(start_index + done, count as int);
        }
        preview.frame_index = (preview.frame_index % count + 1) % count;
        proof {
            assert((done + 1) * interval == done * interval + interval) by (nonlinear_arith);
        }
        preview.last_frame_at = preview.last_frame_at + interval;
        proof {
            done = done + 1;
        }
    }
    proof {
        vstd::arithmetic::div_mod::lemma_basic_div(elapsed(preview.last_frame_at, now) as int, interval as int);
    }
}

// ---------------------------------------------------------------------------
// Font tasks
// ---------------------------------------------------------------------------
/// A background font task: installing the project's font, or removing an
/// installed font file.
#[derive(Debug, Clone)]
pub enum FontTaskKind {
    Install,
    UninstallInstalled { path: String },
}

/// How long each spinner frame of a font task is shown, in milliseconds.
pub const FONT_TASK_SPINNER_FRAME_MS: u64 = 43;

pub open spec fn install_spinner() -> Seq<Seq<char>> {
    seq!["-"@, "\\"@, "|"@, "/"@]
}

pub open spec fn uninstall_spinner() -> Seq<Seq<char>> {
    seq!["/"@, "|"@, "\\"@, "-"@]
}

/// Colours of the progress bar of a font task.
#[derive(Debug, Clone, Copy, PartialEq, Eq, Structural)]
pub enum ProgressTone {
    Removing,
    Installing,
}

impl FontTaskKind {
    pub open spec fn removes(&self) -> bool {
        !(*self is Install)
    }

    pub fn is_uninstall(&self) -> (r: bool)
        ensures
            r == self.removes(),
    {
        match self {
            FontTaskKind::Install => false,
            _ => true,
        }
    }

    /// The spinner of the task: it turns the other way when removing.
    pub fn spinner_frames(&self) -> (r: Vec<&'static str>)
        ensures
            r@.len() == 4,
            forall|i: int|
                0 <= i < 4 ==> #[trigger] r@[i]@ == (if self.removes() {
                    uninstall_spinner()[i]
                } else {
                    install_spinner()[i]
                }),
    {
        let mut frames: Vec<&'static str> = Vec::new();
        if self.is_uninstall() {
            frames.push("/");
            frames.push("|");
            frames.push("\\");
            frames.push("-");
        } else {
            frames.push("-");
            frames.push("\\");
            frames.push("|");
            frames.push("/");
        }
        frames
    }

    /// How long each spinner frame is shown, in milliseconds.
    pub fn spinner_frame_duration(&self) -> (r: u64)
        ensures
            r == FONT_TASK_SPINNER_FRAME_MS,
    {
        FONT_TASK_SPINNER_FRAME_MS
    }

    pub fn footer_label(&self) -> (r: &'static str)
        ensures
            r@ == (if self.removes() {
                "removing font..."@
            } else {
                "installing font..."@
            }),
    {
        if self.is_uninstall() {
            "removing font..."
        } else {
            "installing font..."
        }
    }

    /// The colours of the task's progress bar.
    pub fn progress_style(&self) -> (r: ProgressTone)
        ensures
            r == (if self.removes() {
                ProgressTone::Removing
            } else {
                ProgressTone::Installing
            }),
    {
        if self.is_uninstall() {
            ProgressTone::Removing
        } else {
            ProgressTone::Installing
        }
    }
}

// ---------------------------------------------------------------------------
// Clipboard
// ---------------------------------------------------------------------------
/// A program that takes text on its standard input and puts it on the
/// clipboard.
#[derive(Debug, Clone)]
pub struct ClipboardProvider {
    pub command: &'static str,
    pub args: Vec<&'static str>,
}

fn provider(command: &'static str, args: Vec<&'static str>) -> (r: ClipboardProvider)
    ensures
        r.command == command,
        r.args == args,
{
    ClipboardProvider { command, args }
}

pub open spec fn powershell_args() -> Seq<Seq<char>> {
    seq!["-NoProfile"@, "-Command"@, "Set-Clipboard -Value ([Console]::In.ReadToEnd())"@]
}

/// The providers tried on `os`, in order, as (command, arguments).
pub open spec fn providers_for(os: Seq<char>, wayland: bool) -> Seq<(Seq<char>, Seq<Seq<char>>)> {
    if os == "windows"@ {
        seq![("powershell"@, powershell_args()), ("clip.exe"@, seq![])]
    } else if os == "macos"@ {
        seq![("pbcopy"@, seq![])]
    } else if os == "linux"@ && wayland {
        seq![("wl-copy"@, seq![])]
    } else {
        seq![("xclip"@, seq!["-selection"@, "clipboard"@]), ("wl-copy"@, seq![])]
    }
}

pub open spec fn described(providers: Seq<ClipboardProvider>) -> Seq<(Seq<char>, Seq<Seq<char>>)> {
    Seq::new(providers.len(), |i: int| (providers[i].command@, args_of(providers[i])))
}

pub open spec fn commands(providers: Seq<ClipboardProvider>) -> Seq<Seq<char>> {
    Seq::new(providers.len(), |i: int| providers[i].command@)
}

pub open spec fn args_of(p: ClipboardProvider) -> Seq<Seq<char>> {
    Seq::new(p.args@.len(), |i: int| p.args@[i]@)
}

/// The clipboard providers for `os` (`std::env::consts::OS`), in the order
/// they are tried: on Linux `wl-copy` alone under Wayland, else `xclip`
/// then `wl-copy` (also on unknown systems); `pbcopy` on macOS; PowerShell
/// then `clip.exe` on Windows.
pub fn clipboard_providers_for_os(os: &str, wayland_display_present: bool) -> (r: Vec<ClipboardProvider>)
    ensures
        described(r@) == providers_for(os@, wayland_display_present),
{
    let mut out: Vec<ClipboardProvider> = Vec::new();
    let is_windows = crate::text::str_equal(os, "windows");
    let is_macos = crate::text::str_equal(os, "macos");
    let is_linux = crate::text::str_equal(os, "linux");
    if is_windows {
        let mut args: Vec<&'static str> = Vec::new();
        args.push("-NoProfile");
        args.push("-Command");
        args.push("Set-Clipboard -Value ([Console]::In.ReadToEnd())");
        out.push(provider("powershell", args));
        out.push(provider("clip.exe", Vec::new()));
        proof {
            assert(args_of(out@[0]) =~= powershell_args());
            assert(args_of(out@[1]) =~= seq![]);
        }
    } else if is_macos {
        out.push(provider("pbcopy", Vec::new()));
        proof {
            assert(args_of(out@[0]) =~= seq![]);
        }
    } else if is_linux && wayland_display_present {
        out.push(provider("wl-copy", Vec::new()));
        proof {
            assert(args_of(out@[0]) =~= seq![]);
        }
    } else {
        let mut args: Vec<&'static str> = Vec::new();
        args.push("-selection");
        args.push("clipboard");
        out.push(provider("xclip", args));
        out.push(provider("wl-copy", Vec::new()));
        proof {
            assert(args_of(out@[0]) =~= seq!["-selection"@, "clipboard"@]);
            assert(args_of(out@[1]) =~= seq![]);
        }
    }
    proof {
        assert(described(out@) =~= providers_for(os@, wayland_display_present));
    }
    out
}

/// The error of a clipboard copy in which every provider failed: the
/// commands tried and, per provider, `command: error`.
pub open spec fn clipboard_failure(tried: Seq<Seq<char>>, errors: Seq<Seq<char>>) -> Seq<char> {
    if errors.len() > 0 {
        "failed to copy to clipboard (tried: "@ + join_with(tried, ", "@) + "; errors: "@ + join_with(
            errors,
            " | "@,
        ) + ")"@
    } else {
        "failed to copy to clipboard (tried: "@ + join_with(tried, ", "@) + ")"@
    }
}

pub open spec fn provider_error(command: Seq<char>, error: Seq<char>) -> Seq<char> {
    command + ": "@ + error
}

/// `run` reported an error for provider `p`.
pub open spec fn provider_failed<F: Fn(&ClipboardProvider, &str) -> Result<(), String>>(run: F, p: &ClipboardProvider, text: &str) -> bool {
    exists|e: String| #[trigger] call_ensures(run, (p, text), Err(e))
}

/// Every provider failed under `run`, with the errors `errs`, and `message`
/// reports them.
pub open spec fn all_failed<F: Fn(&ClipboardProvider, &str) -> Result<(), String>>(
    run: F,
    providers: Seq<ClipboardProvider>,
    text: &str,
    errs: Seq<String>,
    message: Seq<char>,
) -> bool {
    &&& errs.len() == providers.len()
    &&& forall|i: int|
        0 <= i < providers.len() ==> #[trigger] call_ensures(run, (&providers[i], text), Err(errs[i]))
    &&& message == clipboard_failure(
        commands(providers),
        Seq::new(errs.len(), |i: int| provider_error(providers[i].command@, errs[i]@)),
    )
}

/// The first of `count` attempts (the first provider or candidate), if
/// there is one.
pub fn first_attempt(count: usize) -> (r: Option<usize>)
    ensures
        r == (if count > 0 { Some(0usize) } else { None::<usize> }),
{
    if count > 0 {
        Some(0)
    } else {
        None
    }
}

/// What follows attempt `index` of `count`: nothing once an attempt has
/// succeeded or none is left, else the next one.
pub fn next_attempt(index: usize, succeeded: bool, count: usize) -> (r: Option<usize>)
    requires
        index < count,
    ensures
        r == (if succeeded || index + 1 >= count { None::<usize> } else { Some((index + 1) as usize) }),
{
    if succeeded || index + 1 >= count {
        None
    } else {
        Some(index + 1)
    }
}

/// Tries the providers in order with `run` until one succeeds (the order
/// and the stop are those of `first_attempt` and `next_attempt`); on
/// success every provider before the one that copied has failed.  When all
/// fail (or there are none) the error names every command tried and the
/// error of each.
pub fn copy_to_clipboard_with_runner<F>(text: &str, providers: &Vec<ClipboardProvider>, run: F) -> (r: Result<(), String>)
    where
        F: Fn(&ClipboardProvider, &str) -> Result<(), String>,
    requires
        forall|i: int| 0 <= i < providers@.len() ==> call_requires(run, (&providers@[i], text)),
    ensures
        r is Ok ==> exists|k: int|
            0 <= k < providers@.len() && #[trigger] call_ensures(run, (&providers@[k], text), Ok(())) && forall|j: int|
                0 <= j < k ==> #[trigger] provider_failed(run, &providers@[j], text),
        r is Err ==> exists|errs: Seq<String>| #[trigger] all_failed(run, providers@, text, errs, r->Err_0@),
{
    let mut attempts: Vec<String> = Vec::new();
    let mut errors: Vec<String> = Vec::new();
    let ghost mut errs: Seq<String> = Seq::empty();
    let mut copied = false;
    let mut cursor = first_attempt(providers.len());
    loop
        invariant
            errs.len() <= providers@.len(),
            forall|j: int| 0 <= j < providers@.len() ==> call_requires(run, (&providers@[j], text)),
            forall|j: int|
                0 <= j < errs.len() ==> #[trigger] call_ensures(run, (&providers@[j], text), Err(errs[j])),
            !copied ==> views(attempts@) == commands(providers@).take(errs.len() as int),
            views(errors@) == Seq::new(
                errs.len(),
                |j: int| provider_error(providers@[j].command@, errs[j]@),
            ),
            cursor matches Some(c) ==> !copied && c == errs.len() && c < providers@.len(),
            cursor is None ==> copied || errs.len() == providers@.len(),
            copied ==> errs.len() < providers@.len() && call_ensures(
                run,
                (&providers@[errs.len() as int], text),
                Ok(()),
            ),
        ensures
            cursor is None,
        decreases providers@.len() - errs.len() + (if cursor is Some { 1int } else { 0int }),
    {
        let i = match cursor {
            Some(i) => i,
            None => break,
        };
        let p: &ClipboardProvider = &providers[i];
        proof {
            assert(*p == providers@[i as int]);
        }
        let cmd: String = p.command.to_owned();
        proof {
            assert(cmd@ == providers@[i as int].command@);
        }
        let ghost before = attempts@;
        proof {
            assert(views(before).len() == before.len());
        }
        attempts.push(cmd);
        let outcome = run(p, text);
        match outcome {
            Ok(u) => {
                proof {
                    assert(call_ensures(run, (&providers@[i as int], text), Ok(())));
                }
                copied = true;
            },
            Err(e) => {
                let ghost eb = errors@;
                proof {
                    assert(views(eb).len() == eb.len());
                }
                let mut line: Vec<char> = Vec::new();
                push_str(&mut line, p.command);
                push_str(&mut line, ": ");
                push_str(&mut line, e.as_str());
                let entry = string_of(&line);
                proof {
                    assert(entry@ =~= provider_error(providers@[i as int].command@, e@));
                }
                errors.push(entry);
                proof {
                    let old_errs = errs;
                    assert(errors@ == eb.push(entry));
                    errs = errs.push(e);
                    assert(call_ensures(run, (&providers@[i as int], text), Err(errs[i as int])));
                    assert forall|j: int| 0 <= j < errs.len() implies #[trigger] views(errors@)[j]
                        == provider_error(providers@[j].command@, errs[j]@) by {
                        if j < i {
                            assert(errors@[j] == eb[j]);
                            assert(views(eb)[j] == provider_error(providers@[j].command@, old_errs[j]@));
                        }
                    }
                    assert(views(errors@) =~= Seq::new(
                        errs.len(),
                        |j: int| provider_error(providers@[j].command@, errs[j]@),
                    ));
                    assert(attempts@[i as int]@ == providers@[i as int].command@);
                    assert(views(attempts@) =~= commands(providers@).take(i + 1));
                }
            },
        }
        cursor = next_attempt(i, copied, providers.len());
    }
    if copied {
        proof {
            let k = errs.len() as int;
            assert forall|j: int| 0 <= j < k implies #[trigger] provider_failed(run, &providers@[j], text) by {
                assert(call_ensures(run, (&providers@[j], text), Err(errs[j])));
            }
            assert(call_ensures(run, (&providers@[k], text), Ok(())));
        }
        return Ok(());
    }
    proof {
        assert(commands(providers@).take(providers@.len() as int) =~= commands(providers@));
    }
    let mut msg: Vec<char> = Vec::new();
    push_str(&mut msg, "failed to copy to clipboard (tried: ");
    push_joined(&mut msg, &attempts, ", ");
    if errors.len() > 0 {
        push_str(&mut msg, "; errors: ");
        push_joined(&mut msg, &errors, " | ");
    }
    push_str(&mut msg, ")");
    proof {
        assert(msg@ =~= clipboard_failure(
            commands(providers@),
            Seq::new(errs.len(), |j: int| provider_error(providers@[j].command@, errs[j]@)),
        ));
    }
    let m = string_of(&msg);
    proof {
        assert(all_failed(run, providers@, text, errs, m@));
    }
    let r: Result<(), String> = Err(m);
    proof {
        assert(r->Err_0 == m);
    }
    r
}

} // verus!
