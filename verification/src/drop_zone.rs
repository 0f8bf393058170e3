//! The drop zone of the creation popup: a dashed box that asks for files to
//! be dropped, pasted or picked and counts what was added so far.
use vstd::prelude::*;
use crate::layout::{center_label, centered, dashed_pattern, dashes, spaces};
use crate::text::{decimal, push_decimal, push_str, string_of};

verus! {

/// How a piece of a drop-zone line is drawn.
#[derive(Debug, Clone, Copy, PartialEq, Eq, Structural)]
pub enum DropZoneTone {
    /// Unstyled (the left margin).
    Plain,
    /// The dashed border, in the accent colour.
    Border,
    /// The call to action, bold in the accent colour.
    Label,
    /// The counter of added files.
    Counter,
    /// A one-line notice, dimmed.
    Notice,
}

/// A piece of text of one drop-zone line, with how it is drawn.
#[derive(Debug, Clone)]
pub struct DropZoneSpan {
    pub text: String,
    pub tone: DropZoneTone,
}

pub open spec fn span_view(s: DropZoneSpan) -> (Seq<char>, DropZoneTone) {
    (s.text@, s.tone)
}

pub open spec fn line_view(l: Seq<DropZoneSpan>) -> Seq<(Seq<char>, DropZoneTone)> {
    Seq::new(l.len(), |i: int| span_view(l[i]))
}

pub open spec fn lines_view(ls: Seq<Vec<DropZoneSpan>>) -> Seq<Seq<(Seq<char>, DropZoneTone)>> {
    Seq::new(ls.len(), |i: int| line_view(ls[i]@))
}

/// The call to action of the drop zone: files are dragged in, or picked
/// with the Windows file picker; animations take media, the rest images.
pub open spec fn import_area_label(animation_media_mode: bool, windows_picker_mode: bool) -> Seq<char> {
    if windows_picker_mode {
        if animation_media_mode {
            "PICK/PASTE MEDIA HERE"@
        } else {
            "PICK/PASTE IMAGES HERE"@
        }
    } else if animation_media_mode {
        "DRAG/PASTE MEDIA HERE"@
    } else {
        "DRAG/PASTE IMAGES HERE"@
    }
}

pub fn creation_workflow_import_area_label(animation_media_mode: bool, windows_picker_mode: bool) -> (r: &'static str)
    ensures
        r@ == import_area_label(animation_media_mode, windows_picker_mode),
{
    if windows_picker_mode {
        if animation_media_mode {
            "PICK/PASTE MEDIA HERE"
        } else {
            "PICK/PASTE IMAGES HERE"
        }
    } else if animation_media_mode {
        "DRAG/PASTE MEDIA HERE"
    } else {
        "DRAG/PASTE IMAGES HERE"
    }
}

/// The counter line: a spinner while an import runs, otherwise the number
/// of files added, ticked once there is at least one.
pub open spec fn counter_text(imported_count: nat, animation_media_mode: bool, spinner: Option<Seq<char>>) -> Seq<char> {
    match spinner {
        Some(s) => "Processing "@ + s,
        None => (if animation_media_mode {
            "Media added: "@
        } else {
            "Images added: "@
        }) + decimal(imported_count) + (if imported_count > 0 {
            seq![' ', '✓']
        } else {
            Seq::empty()
        }),
    }
}

/// The side of the box on inner row `row`: dashed, so every other row.
pub open spec fn side(row: int) -> Seq<char> {
    if row % 2 == 0 {
        seq![' ']
    } else {
        seq!['│']
    }
}

/// The rows of the box: the label in the middle, the counter below it, and
/// the notice (when there is one and there is room) below the counter.
pub open spec fn zone_row(
    inner: nat,
    inner_rows: nat,
    label: Seq<char>,
    counter: Seq<char>,
    notice: Option<Seq<char>>,
    row: int,
) -> Seq<(Seq<char>, DropZoneTone)> {
    let last: int = inner_rows - 1;
    let label_row: int = (inner_rows / 2) as int;
    let counter_row: int = if label_row + 1 <= last { label_row + 1 } else { last };
    let notice_row: int = if counter_row + 1 <= last { counter_row + 1 } else { last };
    let pad = (spaces(4), DropZoneTone::Plain);
    let s = (side(row), DropZoneTone::Border);
    if row == label_row {
        seq![pad, s, (centered(label, inner), DropZoneTone::Label), s]
    } else if row == counter_row {
        seq![pad, s, (centered(counter, inner), DropZoneTone::Counter), s]
    } else if notice is Some && row == notice_row && notice_row != counter_row {
        seq![pad, s, (centered(notice->0, inner), DropZoneTone::Notice), s]
    } else {
        seq![pad, (side(row) + spaces(inner) + side(row), DropZoneTone::Border)]
    }
}

/// The lines of a drop zone `width` x `height` cells: a margin of four
/// columns on each side, a dashed box filling the rest, and nothing at all
/// when fewer than three rows or eight columns of box are left.
pub open spec fn drop_zone(
    width: u16,
    height: u16,
    imported_count: nat,
    animation_media_mode: bool,
    windows_picker_mode: bool,
    spinner: Option<Seq<char>>,
    notice: Option<Seq<char>>,
) -> Seq<Seq<(Seq<char>, DropZoneTone)>> {
    if height < 3 || width < 16 {
        Seq::empty()
    } else {
        let inner = (width - 10) as nat;
        let inner_rows = (height - 2) as nat;
        let label = import_area_label(animation_media_mode, windows_picker_mode);
        let counter = counter_text(imported_count, animation_media_mode, spinner);
        let top = seq![(spaces(4), DropZoneTone::Plain), (seq!['╭'] + dashes(inner) + seq!['╮'], DropZoneTone::Border)];
        let bottom = seq![(spaces(4), DropZoneTone::Plain), (seq!['╰'] + dashes(inner) + seq!['╯'], DropZoneTone::Border)];
        seq![top] + Seq::new(inner_rows, |r: int| zone_row(inner, inner_rows, label, counter, notice, r)) + seq![bottom]
    }
}

fn span(text: String, tone: DropZoneTone) -> (r: DropZoneSpan)
    ensures
        span_view(r) == (text@, tone),
{
    DropZoneSpan { text, tone }
}

fn side_text(row: usize) -> (r: String)
    ensures
        r@ == side(row as int),
{
    let mut v: Vec<char> = Vec::new();
    if row % 2 == 0 {
        v.push(' ');
    } else {
        v.push('│');
    }
    proof {
        assert(v@ =~= side(row as int));
    }
    string_of(&v)
}

fn pad_text() -> (r: String)
    ensures
        r@ == spaces(4),
{
    let v: Vec<char> = vec![' ', ' ', ' ', ' '];
    proof {
        assert(v@ =~= spaces(4));
    }
    string_of(&v)
}

fn counter_string(imported_count: usize, animation_media_mode: bool, spinner: Option<&str>) -> (r: String)
    ensures
        r@ == counter_text(
            imported_count as nat,
            animation_media_mode,
            match spinner {
                Some(s) => Some(s@),
                None => None,
            },
        ),
{
    let mut out: Vec<char> = Vec::new();
    match spinner {
        Some(s) => {
            push_str(&mut out, "Processing ");
            push_str(&mut out, s);
        },
        None => {
            if animation_media_mode {
                push_str(&mut out, "Media added: ");
            } else {
                push_str(&mut out, "Images added: ");
            }
            push_decimal(&mut out, imported_count as u64);
            if imported_count > 0 {
                out.push(' ');
                out.push('✓');
            }
        },
    }
    proof {
        let sp = match spinner {
            Some(s) => Some(s@),
            None => None,
        };
        assert(out@ =~= counter_text(imported_count as nat, animation_media_mode, sp));
    }
    string_of(&out)
}

fn border_text(open: char, inner: usize, close: char) -> (r: String)
    ensures
        r@ == seq![open] + dashes(inner as nat) + seq![close],
{
    let mut out: Vec<char> = Vec::new();
    out.push(open);
    let d = dashed_pattern(inner);
    push_str(&mut out, d.as_str());
    out.push(close);
    proof {
        assert(out@ =~= seq![open] + dashes(inner as nat) + seq![close]);
    }
    string_of(&out)
}

fn blank_row_text(row: usize, inner: usize) -> (r: String)
    ensures
        r@ == side(row as int) + spaces(inner as nat) + side(row as int),
{
    let s = side_text(row);
    let mut out: Vec<char> = Vec::new();
    push_str(&mut out, s.as_str());
    let mut i: usize = 0;
    while i < inner
        invariant
            i <= inner,
            out@ == s@ + spaces(i as nat),
        decreases inner - i,
    {
        out.push(' ');
        proof {
            assert(out@ =~= s@ + spaces((i + 1) as nat));
        }
        i = i + 1;
    }
    push_str(&mut out, s.as_str());
    string_of(&out)
}

/// The lines of the drop zone of the creation popup, `available_width` x
/// `available_height` cells, with the number of files added so far, the
/// spinner frame of a running import and a one-line notice.
pub fn drag_images_here_lines(
    available_width: u16,
    available_height: u16,
    imported_count: usize,
    animation_media_mode: bool,
    windows_picker_mode: bool,
    processing_spinner: Option<&str>,
    inline_notice: Option<&str>,
) -> (r: Vec<Vec<DropZoneSpan>>)
    ensures
        lines_view(r@) == drop_zone(
            available_width,
            available_height,
            imported_count as nat,
            animation_media_mode,
            windows_picker_mode,
            match processing_spinner {
                Some(s) => Some(s@),
                None => None,
            },
            match inline_notice {
                Some(s) => Some(s@),
                None => None,
            },
        ),
{
    let ghost sp = match processing_spinner {
        Some(s) => Some(s@),
        None => None::<Seq<char>>,
    };
    let ghost nt = match inline_notice {
        Some(s) => Some(s@),
        None => None::<Seq<char>>,
    };
    let mut lines: Vec<Vec<DropZoneSpan>> = Vec::new();
    if available_height < 3 || available_width < 16 {
        proof {
            assert(lines_view(lines@) =~= drop_zone(
                available_width, available_height, imported_count as nat,
                animation_media_mode, windows_picker_mode, sp, nt,
            ));
        }
        return lines;
    }
    let inner: usize = (available_width - 10) as usize;
    let inner_rows: usize = (available_height - 2) as usize;
    let label_text = creation_workflow_import_area_label(animation_media_mode, windows_picker_mode);
    let label = center_label(label_text, inner);
    let counter_plain = counter_string(imported_count, animation_media_mode, processing_spinner);
    let counter = center_label(counter_plain.as_str(), inner);
    let notice: Option<String> = match inline_notice {
        Some(n) => Some(center_label(n, inner)),
        None => None,
    };
    let ghost lv = import_area_label(animation_media_mode, windows_picker_mode);
    let ghost cv = counter_text(imported_count as nat, animation_media_mode, sp);
    let last = inner_rows - 1;
    let label_row = inner_rows / 2;
    let counter_row = if label_row + 1 <= last { label_row + 1 } else { last };
    let notice_row = if counter_row + 1 <= last { counter_row + 1 } else { last };
    let ghost expected = drop_zone(
        available_width, available_height, imported_count as nat,
        animation_media_mode, windows_picker_mode, sp, nt,
    );

    let top = vec![span(pad_text(), DropZoneTone::Plain), span(border_text('╭', inner, '╮'), DropZoneTone::Border)];
    lines.push(top);
    proof {
        assert(line_view(lines@[0]@) =~= expected[0]);
    }
    let mut row: usize = 0;
    while row < inner_rows
        invariant
            inner == available_width - 10,
            inner_rows == available_height - 2,
            available_height >= 3,
            available_width >= 16,
            last == inner_rows - 1,
            label_row == inner_rows / 2,
            counter_row == (if label_row + 1 <= last { (label_row + 1) as usize } else { last }),
            notice_row == (if counter_row + 1 <= last { (counter_row + 1) as usize } else { last }),
            label@ == centered(lv, inner as nat),
            counter@ == centered(cv, inner as nat),
            lv == import_area_label(animation_media_mode, windows_picker_mode),
            cv == counter_text(imported_count as nat, animation_media_mode, sp),
            nt is Some <==> notice is Some,
            notice matches Some(n) ==> n@ == centered(nt->0, inner as nat),
            expected == drop_zone(
                available_width, available_height, imported_count as nat,
                animation_media_mode, windows_picker_mode, sp, nt,
            ),
            row <= inner_rows,
            lines@.len() == row + 1,
            forall|j: int| 0 <= j <= row ==> #[trigger] line_view(lines@[j]@) == expected[j],
        decreases inner_rows - row,
    {
        let ghost want = zone_row(inner as nat, inner_rows as nat, lv, cv, nt, row as int);
        let line: Vec<DropZoneSpan> = if row == label_row {
            vec![
                span(pad_text(), DropZoneTone::Plain),
                span(side_text(row), DropZoneTone::Border),
                span(label.clone(), DropZoneTone::Label),
                span(side_text(row), DropZoneTone::Border),
            ]
        } else if row == counter_row {
            vec![
                span(pad_text(), DropZoneTone::Plain),
                span(side_text(row), DropZoneTone::Border),
                span(counter.clone(), DropZoneTone::Counter),
                span(side_text(row), DropZoneTone::Border),
            ]
        } else if notice.is_some() && row == notice_row && notice_row != counter_row {
            let n = match &notice {
                Some(n) => n.clone(),
                None => String::new(),
            };
            vec![
                span(pad_text(), DropZoneTone::Plain),
                span(side_text(row), DropZoneTone::Border),
                span(n, DropZoneTone::Notice),
                span(side_text(row), DropZoneTone::Border),
            ]
        } else {
            vec![span(pad_text(), DropZoneTone::Plain), span(blank_row_text(row, inner), DropZoneTone::Border)]
        };
        proof {
            assert(line_view(line@) =~= want);
            assert(expected[row + 1] == want);
        }
        let ghost before = lines@;
        lines.push(line);
        proof {
            assert forall|j: int| 0 <= j <= row + 1 implies #[trigger] line_view(lines@[j]@) == expected[j] by {
                if j <= row {
                    assert(lines@[j] == before[j]);
                }
            }
        }
        row = row + 1;
    }
    let bottom = vec![span(pad_text(), DropZoneTone::Plain), span(border_text('╰', inner, '╯'), DropZoneTone::Border)];
    lines.push(bottom);
    proof {
        assert(line_view(lines@[row + 1]@) =~= expected[row + 1]);
        assert(lines_view(lines@) =~= expected);
    }
    lines
}

} // verus!
