//! Labels of the sample blocks of an installed font: what the install
//! metadata tells about the glyphs of a block, and the regrouping of
//! single-glyph blocks into one mixed block.
use vstd::prelude::*;
use crate::codepoints::views;
use crate::installed::{
    compact_name_list, compact_names, count_glyphs, expand_standard_sample_cells, expanded_cells,
    glyph_count, join_with, push_joined, unknown_block_label, installed_font_blocks_without_metadata,
};
use crate::keys::{parse_compose, parse_compose_tile_key};
use crate::model::InstalledFontBlock;
use crate::text::{
    char_is_ws, chars_of, contains_char, decimal, is_ws, occurs_at, push_all, push_decimal,
    push_str, slice_chars, string_of, trim, trim_chars, matches_at,
};

verus! {

/// What the install metadata records of one glyph.
#[derive(Debug, Clone)]
pub struct InstalledStaticGlyphEntry {
    pub glyph_name: String,
    pub source_file: String,
    pub threshold: u8,
}

/// The install metadata of a font, by glyph character (one entry per
/// character: the first entry of a character is the one that counts).
#[derive(Debug, Clone)]
pub struct InstalledStaticBlockDetails {
    pub entries_by_char: Vec<(char, InstalledStaticGlyphEntry)>,
}

pub open spec fn lookup(entries: Seq<(char, InstalledStaticGlyphEntry)>, c: char) -> Option<InstalledStaticGlyphEntry>
    decreases entries.len(),
{
    if entries.len() == 0 {
        None
    } else if entries[0].0 == c {
        Some(entries[0].1)
    } else {
        lookup(entries.skip(1), c)
    }
}

/// The entries of the glyphs of `block`, in order; whitespace and glyphs
/// without an entry are skipped.
pub open spec fn block_entries(block: Seq<char>, entries: Seq<(char, InstalledStaticGlyphEntry)>) -> Seq<InstalledStaticGlyphEntry>
    decreases block.len(),
{
    if block.len() == 0 {
        seq![]
    } else {
        let prev = block_entries(block.drop_last(), entries);
        let c = block.last();
        if is_ws(c) {
            prev
        } else {
            match lookup(entries, c) {
                Some(e) => prev.push(e),
                None => prev,
            }
        }
    }
}

/// The number of lines of `s` as `str::lines` counts them.
pub open spec fn line_count(s: Seq<char>) -> nat
    decreases s.len(),
{
    if s.len() == 0 {
        0
    } else if s.len() == 1 {
        1
    } else {
        line_count(s.drop_last()) + (if s[s.len() - 2] == '\n' { 1nat } else { 0nat })
    }
}

pub open spec fn plural(n: nat) -> Seq<char> {
    if n == 1 {
        seq![]
    } else {
        seq!['s']
    }
}

/// The threshold label of entries: their common threshold, else
/// `var. threshold`.
pub open spec fn entries_threshold_label(es: Seq<InstalledStaticGlyphEntry>) -> Seq<char> {
    if es.len() > 0 && forall|i: int| 0 <= i < es.len() ==> #[trigger] es[i].threshold == es[0].threshold {
        decimal(es[0].threshold as nat)
    } else {
        "var. threshold"@
    }
}

/// Title and kind of a block with entries `es`.
pub open spec fn block_title_and_kind(block: Seq<char>, es: Seq<InstalledStaticGlyphEntry>) -> (Seq<char>, Seq<char>) {
    if block.contains('\n') {
        let first = es[0].source_file@;
        let (name, rows, cols) = match parse_compose(first) {
            Some((parent, rows, cols, _, _)) => (parent, rows, cols),
            None => (first, if line_count(block) > 1 { line_count(block) } else { 1 }, 1nat),
        };
        ("Grid: "@ + name, "grid, "@ + decimal(rows) + seq!['x'] + decimal(cols))
    } else {
        let names = Seq::new(es.len(), |i: int| es[i].glyph_name@);
        let title = if names.len() == 1 {
            "Glyph: "@ + names[0]
        } else {
            "Glyphs: "@ + compact_names(names, 3)
        };
        (title, "standard, "@ + decimal(es.len()) + " glyph"@ + plural(es.len()))
    }
}

/// The label of a block described by the install metadata.
pub open spec fn detailed_label(block: Seq<char>, es: Seq<InstalledStaticGlyphEntry>) -> Seq<char> {
    let (title, kind) = block_title_and_kind(block, es);
    title + " ("@ + kind + ", gray n/a, th "@ + entries_threshold_label(es) + ")"@
}

fn lookup_entry(details: &InstalledStaticBlockDetails, c: char) -> (r: Option<&InstalledStaticGlyphEntry>)
    ensures
        (match r {
            Some(e) => Some(*e),
            None => None,
        }) == lookup(details.entries_by_char@, c),
{
    let es = &details.entries_by_char;
    let mut i: usize = 0;
    proof {
        assert(es@.skip(0) =~= es@);
    }
    while i < es.len()
        invariant
            es@ == details.entries_by_char@,
            i <= es@.len(),
            lookup(es@, c) == lookup(es@.skip(i as int), c),
        decreases es@.len() - i,
    {
        if es[i].0 == c {
            let found = &es[i].1;
            proof {
                assert(es@.skip(i as int)[0] == es@[i as int]);
                assert(lookup(es@.skip(i as int), c) == Some(es@[i as int].1));
                assert(*found == es@[i as int].1);
            }
            return Some(found);
        }
        proof {
            assert(es@.skip(i as int).skip(1) =~= es@.skip(i + 1));
        }
        i = i + 1;
    }
    None
}

fn collect_entries<'a>(block: &Vec<char>, details: &'a InstalledStaticBlockDetails) -> (r: Vec<&'a InstalledStaticGlyphEntry>)
    ensures
        Seq::new(r@.len(), |i: int| *r@[i]) == block_entries(block@, details.entries_by_char@),
{
    let mut out: Vec<&InstalledStaticGlyphEntry> = Vec::new();
    let mut i: usize = 0;
    proof {
        assert(block@.take(0) =~= Seq::<char>::empty());
        assert(Seq::new(out@.len(), |j: int| *out@[j]) =~= Seq::<InstalledStaticGlyphEntry>::empty());
    }
    while i < block.len()
        invariant
            i <= block@.len(),
            Seq::new(out@.len(), |j: int| *out@[j]) == block_entries(block@.take(i as int), details.entries_by_char@),
        decreases block@.len() - i,
    {
        let ghost before = Seq::new(out@.len(), |j: int| *out@[j]);
        proof {
            assert(block@.take(i + 1).drop_last() =~= block@.take(i as int));
        }
        let c = block[i];
        if !char_is_ws(c) {
            match lookup_entry(details, c) {
                Some(e) => {
                    out.push(e);
                    proof {
                        assert(Seq::new(out@.len(), |j: int| *out@[j]) =~= before.push(*e));
                    }
                },
                None => {},
            }
        }
        i = i + 1;
    }
    proof {
        assert(block@.take(i as int) =~= block@);
    }
    out
}

fn count_lines(s: &Vec<char>) -> (r: usize)
    ensures
        r as nat == line_count(s@),
{
    if s.len() == 0 {
        return 0;
    }
    let mut n: usize = 1;
    let mut i: usize = 1;
    proof {
        assert(s@.take(1).len() == 1);
    }
    while i < s.len()
        invariant
            1 <= i <= s@.len(),
            n <= i,
            n as nat == line_count(s@.take(i as int)),
        decreases s@.len() - i,
    {
        proof {
            assert(s@.take(i + 1).drop_last() =~= s@.take(i as int));
            assert(s@.take(i + 1)[i - 1] == s@[i - 1]);
        }
        if s[i - 1] == '\n' {
            n = n + 1;
        }
        i = i + 1;
    }
    proof {
        assert(s@.take(i as int) =~= s@);
    }
    n
}

fn push_plural(out: &mut Vec<char>, n: usize)
    ensures
        final(out)@ == old(out)@ + plural(n as nat),
{
    if n != 1 {
        out.push('s');
    }
    proof {
        assert(final(out)@ =~= old(out)@ + plural(n as nat));
    }
}

/// Labels a sample block from the install metadata: `None` when none of its
/// glyphs has an entry.
pub fn installed_font_block_with_details(block: String, details: &InstalledStaticBlockDetails) -> (r: Option<InstalledFontBlock>)
    ensures
        block_entries(block@, details.entries_by_char@).len() == 0 <==> r is None,
        r matches Some(b) ==> {
            let es = block_entries(block@, details.entries_by_char@);
            &&& b.label@ == detailed_label(block@, es)
            &&& b.block@ == block@
            &&& b.export@ == detailed_label(block@, es) + "\n\n"@ + block@
        },
{
    let chars = chars_of(block.as_str());
    let entries = collect_entries(&chars, details);
    let ghost es = block_entries(block@, details.entries_by_char@);
    if entries.len() == 0 {
        return None;
    }
    proof {
        assert(es[0] == *entries@[0]);
    }
    // threshold label
    let first_threshold = entries[0].threshold;
    let mut uniform = true;
    let mut k: usize = 0;
    while k < entries.len()
        invariant
            k <= entries@.len(),
            es == Seq::new(entries@.len(), |j: int| *entries@[j]),
            first_threshold == es[0].threshold,
            uniform <==> forall|j: int| 0 <= j < k ==> #[trigger] es[j].threshold == first_threshold,
        decreases entries@.len() - k,
    {
        proof {
            assert(es[k as int] == *entries@[k as int]);
        }
        if entries[k].threshold != first_threshold {
            uniform = false;
        }
        k = k + 1;
    }
    let mut threshold_label: Vec<char> = Vec::new();
    if uniform {
        push_decimal(&mut threshold_label, first_threshold as u64);
    } else {
        push_str(&mut threshold_label, "var. threshold");
    }
    proof {
        assert(threshold_label@ =~= entries_threshold_label(es));
    }
    // title and kind
    let mut title: Vec<char> = Vec::new();
    let mut kind: Vec<char> = Vec::new();
    if contains_char(&chars, '\n') {
        let first_source = entries[0].source_file.as_str();
        let (name, rows, cols) = match parse_compose_tile_key(first_source) {
            Some((parent, rows, cols, _, _)) => (chars_of(parent.as_str()), rows, cols),
            None => {
                let lines = count_lines(&chars);
                (chars_of(first_source), if lines > 1 { lines } else { 1 }, 1)
            },
        };
        push_str(&mut title, "Grid: ");
        push_all(&mut title, &name);
        push_str(&mut kind, "grid, ");
        push_decimal(&mut kind, rows as u64);
        kind.push('x');
        push_decimal(&mut kind, cols as u64);
    } else {
        let mut names: Vec<String> = Vec::new();
        let mut j: usize = 0;
        while j < entries.len()
            invariant
                j <= entries@.len(),
                es == Seq::new(entries@.len(), |q: int| *entries@[q]),
                views(names@) == Seq::new(j as nat, |q: int| es[q].glyph_name@),
            decreases entries@.len() - j,
        {
            let name = entries[j].glyph_name.clone();
            proof {
                assert(es[j as int] == *entries@[j as int]);
                assert(name@ == es[j as int].glyph_name@);
            }
            let ghost nb = names@;
            names.push(name);
            proof {
                assert(names@ == nb.push(name));
                assert(views(names@) =~= views(nb).push(name@));
                assert(views(names@) =~= Seq::new((j + 1) as nat, |q: int| es[q].glyph_name@));
            }
            j = j + 1;
        }
        if names.len() == 1 {
            push_str(&mut title, "Glyph: ");
            push_str(&mut title, names[0].as_str());
            proof {
                assert(views(names@)[0] == names@[0]@);
            }
        } else {
            push_str(&mut title, "Glyphs: ");
            let compact = compact_name_list(&names, 3);
            push_str(&mut title, compact.as_str());
        }
        push_str(&mut kind, "standard, ");
        push_decimal(&mut kind, entries.len() as u64);
        push_str(&mut kind, " glyph");
        push_plural(&mut kind, entries.len());
    }
    proof {
        let (t, kd) = block_title_and_kind(block@, es);
        assert(title@ =~= t);
        assert(kind@ =~= kd);
    }
    let mut label: Vec<char> = Vec::new();
    push_all(&mut label, &title);
    push_str(&mut label, " (");
    push_all(&mut label, &kind);
    push_str(&mut label, ", gray n/a, th ");
    push_all(&mut label, &threshold_label);
    push_str(&mut label, ")");
    proof {
        assert(label@ =~= detailed_label(block@, es));
    }
    let mut export = label.clone();
    proof {
        assert(export@ == label@);
    }
    push_str(&mut export, "\n\n");
    push_all(&mut export, &chars);
    proof {
        assert(export@ =~= detailed_label(block@, es) + "\n\n"@ + block@);
    }
    Some(InstalledFontBlock { label: string_of(&label), block, export: string_of(&export) })
}


/// A block as (label, text, export).
pub open spec fn parts(b: InstalledFontBlock) -> (Seq<char>, Seq<char>, Seq<char>) {
    (b.label@, b.block@, b.export@)
}

/// How a sample block is shown: labelled from the install metadata when
/// some of its glyphs have entries, else as an unknown block.
pub open spec fn described_block(block: Seq<char>, details: Option<InstalledStaticBlockDetails>) -> (Seq<char>, Seq<char>, Seq<char>) {
    match details {
        Some(d) => {
            let es = block_entries(block, d.entries_by_char@);
            if es.len() > 0 {
                (detailed_label(block, es), block, detailed_label(block, es) + "\n\n"@ + block)
            } else {
                (unknown_block_label(block), block, block)
            }
        },
        None => (unknown_block_label(block), block, block),
    }
}

/// Labels every sample block of an installed font.
pub fn installed_font_blocks_with_details(blocks: Vec<String>, details: &Option<InstalledStaticBlockDetails>) -> (r: Vec<InstalledFontBlock>)
    ensures
        r@.len() == blocks@.len(),
        forall|i: int| 0 <= i < r@.len() ==> #[trigger] parts(r@[i]) == described_block(blocks@[i]@, *details),
{
    let mut out: Vec<InstalledFontBlock> = Vec::new();
    let mut i: usize = 0;
    while i < blocks.len()
        invariant
            i <= blocks@.len(),
            out@.len() == i,
            forall|j: int| 0 <= j < i ==> #[trigger] parts(out@[j]) == described_block(blocks@[j]@, *details),
        decreases blocks@.len() - i,
    {
        let block = blocks[i].clone();
        let described = match details {
            Some(d) => installed_font_block_with_details(block.clone(), d),
            None => None,
        };
        let b = match described {
            Some(b) => b,
            None => {
                let mut one: Vec<String> = Vec::new();
                one.push(block);
                let mut v = installed_font_blocks_without_metadata(one);
                v.remove(0)
            },
        };
        out.push(b);
        i = i + 1;
    }
    out
}

/// The index of the last occurrence of `pat` in `s` at or before `i`.
pub open spec fn last_occurrence_upto(s: Seq<char>, pat: Seq<char>, i: int) -> Option<int>
    decreases i + 1,
{
    if i < 0 {
        None
    } else if occurs_at(s, pat, i) {
        Some(i)
    } else {
        last_occurrence_upto(s, pat, i - 1)
    }
}

/// What follows the last `th ` of a label (`str::rsplit_once`).
pub open spec fn label_threshold(label: Seq<char>) -> Option<Seq<char>> {
    match last_occurrence_upto(label, "th "@, label.len() - 3) {
        Some(k) => Some(label.skip(k + 3)),
        None => None,
    }
}

/// `s` without the `)` it ends with.
pub open spec fn trim_end_parens(s: Seq<char>) -> Seq<char>
    decreases s.len(),
{
    if s.len() > 0 && s.last() == ')' {
        trim_end_parens(s.drop_last())
    } else {
        s
    }
}

/// The threshold parts of labels, where they have one.
pub open spec fn label_thresholds(labels: Seq<Seq<char>>) -> Seq<Seq<char>>
    decreases labels.len(),
{
    if labels.len() == 0 {
        seq![]
    } else {
        let prev = label_thresholds(labels.drop_last());
        match label_threshold(labels.last()) {
            Some(t) => prev.push(t),
            None => prev,
        }
    }
}

/// The threshold label of the mixed block: the one threshold all labels
/// give, else `var. threshold`.
pub open spec fn mixed_threshold_label(labels: Seq<Seq<char>>) -> Seq<char> {
    let ts = label_thresholds(labels);
    if ts.len() > 0 && forall|i: int| 0 <= i < ts.len() ==> #[trigger] ts[i] == ts[0] {
        trim_end_parens(ts[0])
    } else {
        "var. threshold"@
    }
}

/// The single-line blocks (trimmed, non-empty), in order.
pub open spec fn standard_parts(blocks: Seq<InstalledFontBlock>) -> Seq<(Seq<char>, Seq<char>, Seq<char>)>
    decreases blocks.len(),
{
    if blocks.len() == 0 {
        seq![]
    } else {
        let prev = standard_parts(blocks.drop_last());
        let b = blocks.last();
        let t = trim(b.block@);
        if t.len() == 0 || t.contains('\n') {
            prev
        } else {
            prev.push((b.label@, t, b.export@))
        }
    }
}

/// The multi-line blocks (trimmed), in order.
pub open spec fn grid_parts(blocks: Seq<InstalledFontBlock>) -> Seq<(Seq<char>, Seq<char>, Seq<char>)>
    decreases blocks.len(),
{
    if blocks.len() == 0 {
        seq![]
    } else {
        let prev = grid_parts(blocks.drop_last());
        let b = blocks.last();
        let t = trim(b.block@);
        if t.len() > 0 && t.contains('\n') {
            prev.push((b.label@, t, b.export@))
        } else {
            prev
        }
    }
}

/// The blocks of an installed font as shown: every single-line block joined
/// into one block (labelled as the only one, or as a mixed block), followed
/// by the grid blocks.
pub open spec fn regrouped(blocks: Seq<InstalledFontBlock>) -> Seq<(Seq<char>, Seq<char>, Seq<char>)> {
    let st = standard_parts(blocks);
    if st.len() == 0 {
        grid_parts(blocks)
    } else {
        let texts = Seq::new(st.len(), |i: int| st[i].1);
        let block = expanded_cells(join_with(texts, " "@));
        let label = if st.len() == 1 {
            st[0].0
        } else {
            let n = glyph_count(block);
            "Glyphs: mixed (standard, "@ + decimal(n) + " glyph"@ + plural(n) + ", gray n/a, th "@
                + mixed_threshold_label(Seq::new(st.len(), |i: int| st[i].0)) + ")"@
        };
        seq![(label, block, label + "\n\n"@ + block)] + grid_parts(blocks)
    }
}

/// The blocks with something to show.
pub open spec fn shown_blocks(blocks: Seq<InstalledFontBlock>) -> nat
    decreases blocks.len(),
{
    if blocks.len() == 0 {
        0
    } else {
        shown_blocks(blocks.drop_last()) + if trim(blocks.last().block@).len() > 0 {
            1nat
        } else {
            0nat
        }
    }
}

proof fn lemma_parts_partition(blocks: Seq<InstalledFontBlock>)
    ensures
        standard_parts(blocks).len() + grid_parts(blocks).len() == shown_blocks(blocks),
        forall|i: int| 0 <= i < standard_parts(blocks).len() ==> {
            &&& #[trigger] standard_parts(blocks)[i].1.len() > 0
            &&& !standard_parts(blocks)[i].1.contains('\n')
        },
        forall|i: int| 0 <= i < grid_parts(blocks).len() ==> {
            &&& #[trigger] grid_parts(blocks)[i].1.len() > 0
            &&& grid_parts(blocks)[i].1.contains('\n')
        },
    decreases blocks.len(),
{
    if blocks.len() > 0 {
        lemma_parts_partition(blocks.drop_last());
    }
}

/// Regrouping merges every single-line block into one block put first,
/// and keeps each multi-line block (trimmed) after it, in order; blank
/// blocks go.  Every block with something to show is either merged or kept.
pub proof fn lemma_regroup_merges_single_lines(blocks: Seq<InstalledFontBlock>)
    ensures
        standard_parts(blocks).len() + grid_parts(blocks).len() == shown_blocks(blocks),
        regrouped(blocks).len() == (if standard_parts(blocks).len() > 0 {
            1nat
        } else {
            0nat
        }) + grid_parts(blocks).len(),
        forall|i: int| 0 <= i < grid_parts(blocks).len() ==> regrouped(blocks)[i + (if standard_parts(blocks).len() > 0 {
            1int
        } else {
            0int
        })] == #[trigger] grid_parts(blocks)[i],
        forall|i: int| 0 <= i < grid_parts(blocks).len() ==> (#[trigger] grid_parts(blocks)[i]).1.contains('\n'),
        forall|i: int| 0 <= i < standard_parts(blocks).len() ==> !(#[trigger] standard_parts(blocks)[i]).1.contains('\n'),
{
    lemma_parts_partition(blocks);
    assert forall|i: int| 0 <= i < grid_parts(blocks).len() implies (#[trigger] grid_parts(blocks)[i]).1.contains('\n') by {
        assert(grid_parts(blocks)[i].1.len() > 0);
    }
    assert forall|i: int| 0 <= i < standard_parts(blocks).len() implies !(#[trigger] standard_parts(blocks)[i]).1.contains('\n') by {
        assert(standard_parts(blocks)[i].1.len() > 0);
    }
}

/// A block as the regrouping sees it: label, trimmed text, export.
pub open spec fn normalized_part(b: InstalledFontBlock) -> (Seq<char>, Seq<char>, Seq<char>) {
    (b.label@, trim(b.block@), b.export@)
}

pub open spec fn normalize() -> spec_fn(InstalledFontBlock) -> (Seq<char>, Seq<char>, Seq<char>) {
    |b: InstalledFontBlock| normalized_part(b)
}

pub open spec fn not_blank() -> spec_fn((Seq<char>, Seq<char>, Seq<char>)) -> bool {
    |p: (Seq<char>, Seq<char>, Seq<char>)| p.1.len() > 0
}

pub open spec fn single_line() -> spec_fn((Seq<char>, Seq<char>, Seq<char>)) -> bool {
    |p: (Seq<char>, Seq<char>, Seq<char>)| !p.1.contains('\n')
}

pub open spec fn multi_line() -> spec_fn((Seq<char>, Seq<char>, Seq<char>)) -> bool {
    |p: (Seq<char>, Seq<char>, Seq<char>)| p.1.contains('\n')
}

/// The blocks, trimmed, without the blank ones, in order.
pub open spec fn normalized_blocks(blocks: Seq<InstalledFontBlock>) -> Seq<(Seq<char>, Seq<char>, Seq<char>)> {
    blocks.map_values(normalize()).filter(not_blank())
}

proof fn lemma_filter_push<T>(s: Seq<T>, x: T, pred: spec_fn(T) -> bool)
    ensures
        s.push(x).filter(pred) == (if pred(x) {
            s.filter(pred).push(x)
        } else {
            s.filter(pred)
        }),
{
    reveal(Seq::filter);
    assert(s.push(x).drop_last() =~= s);
}

proof fn lemma_parts_filter(blocks: Seq<InstalledFontBlock>)
    ensures
        standard_parts(blocks) == normalized_blocks(blocks).filter(single_line()),
        grid_parts(blocks) == normalized_blocks(blocks).filter(multi_line()),
    decreases blocks.len(),
{
    if blocks.len() == 0 {
        reveal(Seq::filter);
        assert(blocks.map_values(normalize()) =~= Seq::empty());
    } else {
        let init = blocks.drop_last();
        lemma_parts_filter(init);
        let x = normalized_part(blocks.last());
        assert(blocks.map_values(normalize()) =~= init.map_values(normalize()).push(x));
        lemma_filter_push(init.map_values(normalize()), x, not_blank());
        let n = normalized_blocks(init);
        if x.1.len() > 0 {
            lemma_filter_push(n, x, single_line());
            lemma_filter_push(n, x, multi_line());
        }
    }
}

/// Regrouping, stated over the blocks trimmed with the blank ones dropped:
/// the single-line ones become one block put first (their texts joined with
/// a space and laid out as cells; labelled as the only one when there is
/// one; exported as its label, a blank line and its text), and the
/// multi-line ones follow unchanged, in order.
pub proof fn lemma_regroup_law(blocks: Seq<InstalledFontBlock>)
    ensures
        ({
            let singles = normalized_blocks(blocks).filter(single_line());
            let grids = normalized_blocks(blocks).filter(multi_line());
            let text = expanded_cells(join_with(singles.map_values(|p: (Seq<char>, Seq<char>, Seq<char>)| p.1), " "@));
            let r = regrouped(blocks);
            &&& singles.len() == 0 ==> r == grids
            &&& singles.len() > 0 ==> r == seq![(r[0].0, text, r[0].0 + "\n\n"@ + text)] + grids
            &&& singles.len() == 1 ==> r[0].0 == singles[0].0
        }),
{
    lemma_parts_filter(blocks);
    let singles = standard_parts(blocks);
    assert(Seq::new(singles.len(), |i: int| singles[i].1) =~= singles.map_values(
        |p: (Seq<char>, Seq<char>, Seq<char>)| p.1,
    ));
}

fn label_threshold_of(label: &Vec<char>) -> (r: Option<Vec<char>>)
    ensures
        (match r {
            Some(v) => Some(v@),
            None => None,
        }) == label_threshold(label@),
{
    let pat = chars_of("th ");
    proof {
        reveal_strlit("th ");
    }
    if label.len() < 3 {
        proof {
            assert(label@.len() - 3 < 0);
        }
        return None;
    }
    let mut k: usize = label.len() - 3 + 1;
    while k > 0
        invariant
            pat@ == "th "@,
            3 <= label@.len(),
            k <= label@.len() - 2,
            last_occurrence_upto(label@, "th "@, label@.len() - 3) == last_occurrence_upto(label@, "th "@, k - 1),
        decreases k,
    {
        if matches_at(label, &pat, k - 1) {
            assert(k + 2 <= label.len());
            let rest = slice_chars(label, k + 2, label.len());
            proof {
                assert(rest@ =~= label@.skip(k - 1 + 3));
            }
            return Some(rest);
        }
        k = k - 1;
    }
    None
}

fn trim_end_paren_chars(s: &Vec<char>) -> (r: Vec<char>)
    ensures
        r@ == trim_end_parens(s@),
{
    let mut end = s.len();
    proof {
        assert(s@.take(end as int) =~= s@);
    }
    while end > 0 && s[end - 1] == ')'
        invariant
            end <= s@.len(),
            trim_end_parens(s@) == trim_end_parens(s@.take(end as int)),
        decreases end,
    {
        proof {
            assert(s@.take(end - 1) =~= s@.take(end as int).drop_last());
        }
        end = end - 1;
    }
    let r = slice_chars(s, 0, end);
    proof {
        assert(r@ =~= s@.take(end as int));
    }
    r
}


pub open spec fn parts_seq(v: Seq<InstalledFontBlock>) -> Seq<(Seq<char>, Seq<char>, Seq<char>)> {
    Seq::new(v.len(), |i: int| parts(v[i]))
}

/// The threshold label of the mixed block made of `standard`.
fn mixed_threshold_label_of(standard: &Vec<InstalledFontBlock>) -> (r: Vec<char>)
    ensures
        r@ == mixed_threshold_label(Seq::new(standard@.len(), |i: int| standard@[i].label@)),
{
    let ghost labels = Seq::new(standard@.len(), |i: int| standard@[i].label@);
    let mut ths: Vec<Vec<char>> = Vec::new();
    let mut i: usize = 0;
    proof {
        assert(labels.take(0) =~= Seq::<Seq<char>>::empty());
        assert(crate::installed::vec_views(ths@) =~= Seq::<Seq<char>>::empty());
    }
    while i < standard.len()
        invariant
            i <= standard@.len(),
            labels == Seq::new(standard@.len(), |q: int| standard@[q].label@),
            crate::installed::vec_views(ths@) == label_thresholds(labels.take(i as int)),
        decreases standard@.len() - i,
    {
        let ghost before = crate::installed::vec_views(ths@);
        proof {
            assert(labels.take(i + 1).drop_last() =~= labels.take(i as int));
            assert(labels.take(i + 1).last() == standard@[i as int].label@);
        }
        let label = chars_of(standard[i].label.as_str());
        match label_threshold_of(&label) {
            Some(t) => {
                let ghost tv = t@;
                ths.push(t);
                proof {
                    assert(crate::installed::vec_views(ths@) =~= before.push(tv));
                }
            },
            None => {},
        }
        i = i + 1;
    }
    proof {
        assert(labels.take(i as int) =~= labels);
    }
    let ghost ts = crate::installed::vec_views(ths@);
    if ths.len() == 0 {
        let mut r: Vec<char> = Vec::new();
        push_str(&mut r, "var. threshold");
        proof {
            assert(r@ =~= "var. threshold"@);
        }
        return r;
    }
    let mut same = true;
    let mut k: usize = 0;
    while k < ths.len()
        invariant
            k <= ths@.len(),
            ths@.len() > 0,
            ts == crate::installed::vec_views(ths@),
            same <==> forall|q: int| 0 <= q < k ==> #[trigger] ts[q] == ts[0],
        decreases ths@.len() - k,
    {
        proof {
            assert(ts[k as int] == ths@[k as int]@);
            assert(ts[0] == ths@[0]@);
        }
        if !crate::text::chars_equal(&ths[k], &ths[0]) {
            same = false;
        }
        k = k + 1;
    }
    if same {
        trim_end_paren_chars(&ths[0])
    } else {
        let mut r: Vec<char> = Vec::new();
        push_str(&mut r, "var. threshold");
        proof {
            assert(r@ =~= "var. threshold"@);
        }
        r
    }
}

/// Joins the single-line sample blocks of an installed font into one block
/// (labelled as a mixed block when there are several) and keeps the grid
/// blocks after it; blank blocks are dropped and the rest trimmed.
pub fn regroup_installed_sample_blocks(blocks: Vec<InstalledFontBlock>) -> (r: Vec<InstalledFontBlock>)
    ensures
        parts_seq(r@) == regrouped(blocks@),
{
    let mut standard: Vec<InstalledFontBlock> = Vec::new();
    let mut grid: Vec<InstalledFontBlock> = Vec::new();
    let mut i: usize = 0;
    proof {
        assert(blocks@.take(0) =~= Seq::<InstalledFontBlock>::empty());
        assert(parts_seq(standard@) =~= Seq::<(Seq<char>, Seq<char>, Seq<char>)>::empty());
        assert(parts_seq(grid@) =~= Seq::<(Seq<char>, Seq<char>, Seq<char>)>::empty());
    }
    while i < blocks.len()
        invariant
            i <= blocks@.len(),
            parts_seq(standard@) == standard_parts(blocks@.take(i as int)),
            parts_seq(grid@) == grid_parts(blocks@.take(i as int)),
        decreases blocks@.len() - i,
    {
        let ghost sb = parts_seq(standard@);
        let ghost gb = parts_seq(grid@);
        proof {
            assert(blocks@.take(i + 1).drop_last() =~= blocks@.take(i as int));
            assert(blocks@.take(i + 1).last() == blocks@[i as int]);
        }
        let b = &blocks[i];
        let t = trim_chars(&chars_of(b.block.as_str()));
        if t.len() > 0 {
            let nb = InstalledFontBlock { label: b.label.clone(), block: string_of(&t), export: b.export.clone() };
            if contains_char(&t, '\n') {
                grid.push(nb);
                proof {
                    assert(parts_seq(grid@) =~= gb.push(parts(nb)));
                }
            } else {
                standard.push(nb);
                proof {
                    assert(parts_seq(standard@) =~= sb.push(parts(nb)));
                }
            }
        }
        i = i + 1;
    }
    proof {
        assert(blocks@.take(i as int) =~= blocks@);
    }
    let mut grouped: Vec<InstalledFontBlock> = Vec::new();
    if standard.len() > 0 {
        let ghost st = standard_parts(blocks@);
        let mut texts: Vec<String> = Vec::new();
        let mut j: usize = 0;
        while j < standard.len()
            invariant
                j <= standard@.len(),
                st == parts_seq(standard@),
                views(texts@) == Seq::new(j as nat, |q: int| st[q].1),
            decreases standard@.len() - j,
        {
            let text = standard[j].block.clone();
            proof {
                assert(st[j as int] == parts(standard@[j as int]));
                assert(text@ == st[j as int].1);
            }
            let ghost tb = texts@;
            texts.push(text);
            proof {
                assert(texts@ == tb.push(text));
                assert(views(texts@) =~= views(tb).push(text@));
                assert(views(tb) == Seq::new(j as nat, |q: int| st[q].1));
                assert(views(texts@) =~= Seq::new((j + 1) as nat, |q: int| st[q].1));
            }
            j = j + 1;
        }
        let mut joined: Vec<char> = Vec::new();
        push_joined(&mut joined, &texts, " ");
        let block = expand_standard_sample_cells(string_of(&joined).as_str());
        proof {
            assert(joined@ =~= join_with(Seq::new(st.len(), |q: int| st[q].1), " "@));
        }
        let label = if standard.len() == 1 {
            standard[0].label.clone()
        } else {
            let cells = chars_of(block.as_str());
            let n = count_glyphs(&cells);
            let tl = mixed_threshold_label_of(&standard);
            let mut l: Vec<char> = Vec::new();
            push_str(&mut l, "Glyphs: mixed (standard, ");
            push_decimal(&mut l, n as u64);
            push_str(&mut l, " glyph");
            push_plural(&mut l, n);
            push_str(&mut l, ", gray n/a, th ");
            push_all(&mut l, &tl);
            push_str(&mut l, ")");
            proof {
                assert(Seq::new(standard@.len(), |q: int| standard@[q].label@) =~= Seq::new(st.len(), |q: int| st[q].0));
                assert(l@ =~= "Glyphs: mixed (standard, "@ + decimal(n as nat) + " glyph"@ + plural(n as nat)
                    + ", gray n/a, th "@ + mixed_threshold_label(Seq::new(st.len(), |q: int| st[q].0)) + ")"@);
            }
            string_of(&l)
        };
        let mut export = chars_of(label.as_str());
        push_str(&mut export, "\n\n");
        push_str(&mut export, block.as_str());
        let mixed = InstalledFontBlock { label, export: string_of(&export), block };
        grouped.push(mixed);
    }
    let ghost head = parts_seq(grouped@);
    let mut g: usize = 0;
    while g < grid.len()
        invariant
            g <= grid@.len(),
            parts_seq(grouped@) == head + parts_seq(grid@).take(g as int),
        decreases grid@.len() - g,
    {
        let ghost before = parts_seq(grouped@);
        let item = InstalledFontBlock { label: grid[g].label.clone(), block: grid[g].block.clone(), export: grid[g].export.clone() };
        grouped.push(item);
        proof {
            assert(parts_seq(grouped@) =~= before.push(parts(item)));
            assert(parts_seq(grid@).take(g + 1) =~= parts_seq(grid@).take(g as int).push(parts(grid@[g as int])));
        }
        g = g + 1;
    }
    proof {
        assert(parts_seq(grid@).take(g as int) =~= parts_seq(grid@));
        assert(parts_seq(grouped@) =~= regrouped(blocks@));
    }
    grouped
}

} // verus!
