//! The installed-fonts area of the Home panel: sample blocks of installed
//! fonts, their labels, the pruning of animation glyphs out of static
//! samples, wrapping for display and animation playback.
use vstd::prelude::*;
use crate::codepoints::views;
use crate::model::{InstalledFontAnimationPreview, InstalledFontBlock};
use crate::text::{char_is_ws, chars_of, decimal, is_ws, push_decimal, push_str, string_of, trim, trim_chars};

verus! {

pub open spec fn vec_views(v: Seq<Vec<char>>) -> Seq<Seq<char>> {
    Seq::new(v.len(), |i: int| v[i]@)
}

// ---------------------------------------------------------------------------
// Pruning animation glyphs out of the static sample
// ---------------------------------------------------------------------------
/// `c` is a glyph of one of the animation frame blocks.
pub open spec fn animation_char(frames: Seq<Seq<char>>, c: char) -> bool {
    !is_ws(c) && exists|i: int| 0 <= i < frames.len() && #[trigger] frames[i].contains(c)
}

/// `block` without the glyphs of the animation frames (whitespace is kept).
pub open spec fn without_animation_chars(frames: Seq<Seq<char>>, block: Seq<char>) -> Seq<char>
    decreases block.len(),
{
    if block.len() == 0 {
        block
    } else if animation_char(frames, block.last()) {
        without_animation_chars(frames, block.drop_last())
    } else {
        without_animation_chars(frames, block.drop_last()).push(block.last())
    }
}

/// The static sample blocks that remain once the animation frames are
/// taken out: a block equal (after trimming) to a frame block is dropped,
/// animation glyphs are removed from the others, and blocks left blank go.
pub open spec fn pruned_blocks(blocks: Seq<Seq<char>>, frames: Seq<Seq<char>>) -> Seq<Seq<char>>
    decreases blocks.len(),
{
    if blocks.len() == 0 {
        seq![]
    } else {
        let rest = pruned_blocks(blocks.drop_last(), frames);
        let b = blocks.last();
        let filtered = without_animation_chars(frames, b);
        if frames.contains(trim(b)) || trim(filtered).len() == 0 {
            rest
        } else {
            rest.push(filtered)
        }
    }
}

proof fn lemma_without_animation_chars(frames: Seq<Seq<char>>, block: Seq<char>)
    ensures
        forall|k: int|
            0 <= k < without_animation_chars(frames, block).len() ==> !animation_char(
                frames,
                #[trigger] without_animation_chars(frames, block)[k],
            ),
    decreases block.len(),
{
    if block.len() > 0 {
        lemma_without_animation_chars(frames, block.drop_last());
        let prev = without_animation_chars(frames, block.drop_last());
        let w = without_animation_chars(frames, block);
        if !animation_char(frames, block.last()) {
            assert forall|k: int| 0 <= k < w.len() implies !animation_char(frames, #[trigger] w[k]) by {
                if k < prev.len() {
                    assert(w[k] == prev[k]);
                }
            }
        }
    }
}

/// Pruning keeps no block that shows nothing, and no glyph of an
/// animation frame in the blocks it keeps.
pub proof fn lemma_pruned_blocks_are_static(blocks: Seq<Seq<char>>, frames: Seq<Seq<char>>)
    ensures
        forall|i: int| 0 <= i < pruned_blocks(blocks, frames).len() ==> {
            &&& trim(#[trigger] pruned_blocks(blocks, frames)[i]).len() > 0
            &&& forall|k: int|
                0 <= k < pruned_blocks(blocks, frames)[i].len() ==> !animation_char(frames, pruned_blocks(blocks, frames)[i][k])
        },
    decreases blocks.len(),
{
    if blocks.len() > 0 {
        lemma_pruned_blocks_are_static(blocks.drop_last(), frames);
        lemma_without_animation_chars(frames, blocks.last());
        let rest = pruned_blocks(blocks.drop_last(), frames);
        let r = pruned_blocks(blocks, frames);
        assert forall|i: int| 0 <= i < r.len() implies {
            &&& trim(#[trigger] r[i]).len() > 0
            &&& forall|k: int| 0 <= k < r[i].len() ==> !animation_char(frames, r[i][k])
        } by {
            if i < rest.len() {
                assert(r[i] == rest[i]);
            } else {
                let f = without_animation_chars(frames, blocks.last());
                assert(r[i] == f);
                assert forall|k: int| 0 <= k < r[i].len() implies !animation_char(frames, r[i][k]) by {
                    assert(r[i][k] == f[k]);
                }
            }
        }
    }
}

fn is_animation_char(frames: &Vec<Vec<char>>, c: char) -> (r: bool)
    ensures
        r == animation_char(vec_views(frames@), c),
{
    let ghost fs = vec_views(frames@);
    if char_is_ws(c) {
        return false;
    }
    let mut i: usize = 0;
    while i < frames.len()
        invariant
            i <= frames.len(),
            fs == vec_views(frames@),
            forall|j: int| 0 <= j < i ==> !fs[j].contains(c),
            !is_ws(c),
        decreases frames.len() - i,
    {
        if crate::text::contains_char(&frames[i], c) {
            proof {
                assert(fs[i as int] == frames@[i as int]@);
                assert(fs[i as int].contains(c));
                assert(animation_char(fs, c));
            }
            return true;
        }
        i = i + 1;
    }
    false
}

fn filter_animation_chars(frames: &Vec<Vec<char>>, block: &Vec<char>) -> (r: Vec<char>)
    ensures
        r@ == without_animation_chars(vec_views(frames@), block@),
{
    let ghost fs = vec_views(frames@);
    let mut out: Vec<char> = Vec::new();
    let mut i: usize = 0;
    while i < block.len()
        invariant
            i <= block.len(),
            fs == vec_views(frames@),
            out@ == without_animation_chars(fs, block@.take(i as int)),
        decreases block.len() - i,
    {
        proof {
            assert(block@.take(i + 1).drop_last() =~= block@.take(i as int));
        }
        if !is_animation_char(frames, block[i]) {
            out.push(block[i]);
        }
        i = i + 1;
    }
    proof {
        assert(block@.take(block.len() as int) =~= block@);
    }
    out
}

/// Removes animation frames from the static sample blocks of an installed
/// font: blocks that are a frame are dropped, frame glyphs are removed from
/// the other blocks, and blocks left blank are dropped.
pub fn prune_static_sample_blocks(sample_blocks: Vec<String>, animation_frame_blocks: &Vec<String>) -> (r: Vec<String>)
    ensures
        views(r@) == pruned_blocks(views(sample_blocks@), views(animation_frame_blocks@)),
{
    let mut frames: Vec<Vec<char>> = Vec::new();
    let mut k: usize = 0;
    while k < animation_frame_blocks.len()
        invariant
            k <= animation_frame_blocks.len(),
            frames@.len() == k,
            forall|j: int| 0 <= j < k ==> frames@[j]@ == animation_frame_blocks@[j]@,
        decreases animation_frame_blocks.len() - k,
    {
        frames.push(chars_of(animation_frame_blocks[k].as_str()));
        k = k + 1;
    }
    let ghost fs = views(animation_frame_blocks@);
    proof {
        assert(vec_views(frames@) =~= fs);
    }
    let ghost bs = views(sample_blocks@);
    let mut out: Vec<String> = Vec::new();
    let mut i: usize = 0;
    while i < sample_blocks.len()
        invariant
            i <= sample_blocks.len(),
            fs == views(animation_frame_blocks@),
            bs == views(sample_blocks@),
            vec_views(frames@) == fs,
            frames@.len() == fs.len(),
            forall|j: int| 0 <= j < frames@.len() ==> frames@[j]@ == fs[j],
            views(out@) == pruned_blocks(bs.take(i as int), fs),
        decreases sample_blocks.len() - i,
    {
        let block = chars_of(sample_blocks[i].as_str());
        let trimmed = trim_chars(&block);
        proof {
            assert(bs.take(i + 1).drop_last() =~= bs.take(i as int));
            assert(bs.take(i + 1).last() == block@);
        }
        // Is the trimmed block one of the frames?
        let mut is_frame = false;
        let mut j: usize = 0;
        while j < frames.len() && !is_frame
            invariant
                j <= frames.len(),
                frames@.len() == fs.len(),
                forall|a: int| 0 <= a < frames@.len() ==> frames@[a]@ == fs[a],
                !is_frame ==> forall|a: int| 0 <= a < j ==> fs[a] != trimmed@,
                is_frame ==> fs.contains(trimmed@),
            decreases frames.len() - j,
        {
            if crate::text::chars_equal(&frames[j], &trimmed) {
                is_frame = true;
                proof {
                    assert(fs[j as int] == trimmed@);
                }
            }
            j = j + 1;
        }
        if !is_frame {
            let filtered = filter_animation_chars(&frames, &block);
            if !crate::text::is_blank(&filtered) {
                let ghost before = out@;
                out.push(string_of(&filtered));
                proof {
                    assert(views(out@) =~= views(before).push(filtered@));
                }
            }
        }
        i = i + 1;
    }
    proof {
        assert(bs.take(sample_blocks.len() as int) =~= bs);
    }
    out
}

// ---------------------------------------------------------------------------
// Counting and joining
// ---------------------------------------------------------------------------
/// The number of non-whitespace characters of `s`.
pub open spec fn glyph_count(s: Seq<char>) -> nat
    decreases s.len(),
{
    if s.len() == 0 {
        0
    } else if is_ws(s.last()) {
        glyph_count(s.drop_last())
    } else {
        glyph_count(s.drop_last()) + 1
    }
}

pub fn count_glyphs(s: &Vec<char>) -> (r: usize)
    ensures
        r as nat == glyph_count(s@),
{
    let mut n: usize = 0;
    let mut i: usize = 0;
    while i < s.len()
        invariant
            i <= s.len(),
            n as nat == glyph_count(s@.take(i as int)),
            n <= i,
        decreases s.len() - i,
    {
        proof {
            assert(s@.take(i + 1).drop_last() =~= s@.take(i as int));
        }
        if !char_is_ws(s[i]) {
            n = n + 1;
        }
        i = i + 1;
    }
    proof {
        assert(s@.take(s.len() as int) =~= s@);
    }
    n
}

/// `items.join(sep)`.
pub open spec fn join_with(items: Seq<Seq<char>>, sep: Seq<char>) -> Seq<char>
    decreases items.len(),
{
    if items.len() == 0 {
        seq![]
    } else if items.len() == 1 {
        items[0]
    } else {
        join_with(items.drop_last(), sep) + sep + items.last()
    }
}

/// Appends `items.join(sep)`.
pub fn push_joined(out: &mut Vec<char>, items: &Vec<String>, sep: &str)
    ensures
        final(out)@ == old(out)@ + join_with(views(items@), sep@),
{
    let ghost vs = views(items@);
    let mut i: usize = 0;
    while i < items.len()
        invariant
            i <= items.len(),
            vs == views(items@),
            out@ == old(out)@ + join_with(vs.take(i as int), sep@),
        decreases items.len() - i,
    {
        proof {
            assert(vs.take(i + 1).drop_last() =~= vs.take(i as int));
        }
        let ghost before = out@;
        if i > 0 {
            push_str(out, sep);
        }
        push_str(out, items[i].as_str());
        proof {
            if i == 0 {
                assert(join_with(vs.take(1), sep@) == vs[0]);
                assert(join_with(vs.take(0), sep@) =~= seq![]);
            }
            assert(out@ =~= old(out)@ + join_with(vs.take(i + 1), sep@));
        }
        i = i + 1;
    }
    proof {
        assert(vs.take(items.len() as int) =~= vs);
    }
}

/// `names` joined by `, `, showing at most `max_visible` of them and then
/// the number of those left out.
pub open spec fn compact_names(names: Seq<Seq<char>>, max_visible: nat) -> Seq<char> {
    let shown = if names.len() > max_visible {
        names.take(max_visible as int)
    } else {
        names
    };
    let visible = join_with(shown, seq![',', ' ']);
    if names.len() > max_visible {
        visible + seq![',', ' ', '+'] + decimal((names.len() - max_visible) as nat) + seq![
            ' ',
            'm',
            'o',
            'r',
            'e',
        ]
    } else {
        visible
    }
}

/// The list shows the first `max_visible` names joined by `, `; when some
/// are left out it ends in `, +N more`, where `N` is how many names are not
/// shown, so the names shown and `N` add up to all the names.
pub proof fn lemma_compact_names_count_the_rest(names: Seq<Seq<char>>, max_visible: nat)
    ensures
        names.len() <= max_visible ==> compact_names(names, max_visible) == join_with(names, seq![',', ' ']),
        names.len() > max_visible ==> {
            let shown = names.take(max_visible as int);
            let hidden: nat = (names.len() - shown.len()) as nat;
            &&& shown.len() + hidden == names.len()
            &&& compact_names(names, max_visible) == join_with(shown, seq![',', ' ']) + seq![',', ' ', '+']
                + decimal(hidden) + seq![' ', 'm', 'o', 'r', 'e']
        },
{
}

/// A short list of names: the first `max_visible`, then `+N more`.
pub fn compact_name_list(names: &Vec<String>, max_visible: usize) -> (r: String)
    ensures
        r@ == compact_names(views(names@), max_visible as nat),
{
    let mut shown: Vec<String> = Vec::new();
    let mut i: usize = 0;
    while i < names.len() && i < max_visible
        invariant
            i <= names.len(),
            i <= max_visible,
            shown@.len() == i,
            forall|j: int| 0 <= j < i ==> shown@[j]@ == names@[j]@,
        decreases names.len() - i,
    {
        shown.push(names[i].clone());
        i = i + 1;
    }
    proof {
        if names.len() > max_visible {
            assert(views(shown@) =~= views(names@).take(max_visible as int));
        } else {
            assert(views(shown@) =~= views(names@));
        }
    }
    let mut out: Vec<char> = Vec::new();
    push_joined(&mut out, &shown, ", ");
    proof {
        reveal_strlit(", ");
        assert(", "@ =~= seq![',', ' ']);
    }
    if names.len() > max_visible {
        push_str(&mut out, ", +");
        push_decimal(&mut out, (names.len() - max_visible) as u64);
        push_str(&mut out, " more");
        proof {
            reveal_strlit(", +");
            reveal_strlit(" more");
            assert(out@ =~= compact_names(views(names@), max_visible as nat));
        }
    } else {
        proof {
            assert(out@ =~= compact_names(views(names@), max_visible as nat));
        }
    }
    string_of(&out)
}

// ---------------------------------------------------------------------------
// Sample blocks without metadata
// ---------------------------------------------------------------------------
/// `Glyphs: unknown (<type>, <n> glyph[s], gray n/a, th n/a)`.
pub open spec fn unknown_block_label(block: Seq<char>) -> Seq<char> {
    let n = glyph_count(block);
    let type_label = if block.contains('\n') {
        seq!['g', 'r', 'i', 'd']
    } else {
        seq!['s', 't', 'a', 'n', 'd', 'a', 'r', 'd']
    };
    "Glyphs: unknown ("@ + type_label + seq![',', ' '] + decimal(n) + " glyph"@ + (if n == 1 {
        seq![]
    } else {
        seq!['s']
    }) + ", gray n/a, th n/a)"@
}

fn unknown_block(block: String) -> (r: InstalledFontBlock)
    ensures
        r.label@ == unknown_block_label(block@),
        r.block@ == block@,
        r.export@ == block@,
{
    let chars = chars_of(block.as_str());
    let n = count_glyphs(&chars);
    let mut label: Vec<char> = Vec::new();
    push_str(&mut label, "Glyphs: unknown (");
    if crate::text::contains_char(&chars, '\n') {
        push_str(&mut label, "grid");
    } else {
        push_str(&mut label, "standard");
    }
    push_str(&mut label, ", ");
    push_decimal(&mut label, n as u64);
    push_str(&mut label, " glyph");
    if n != 1 {
        label.push('s');
    }
    push_str(&mut label, ", gray n/a, th n/a)");
    proof {
        reveal_strlit("grid");
        reveal_strlit("standard");
        reveal_strlit(", ");
        assert(label@ =~= unknown_block_label(block@));
    }
    InstalledFontBlock { label: string_of(&label), export: block.clone(), block }
}

/// Labels sample blocks of a font with no install metadata: grid or
/// standard, and the number of glyphs.
pub fn installed_font_blocks_without_metadata(blocks: Vec<String>) -> (r: Vec<InstalledFontBlock>)
    ensures
        r@.len() == blocks@.len(),
        forall|i: int|
            0 <= i < r@.len() ==> {
                &&& #[trigger] r@[i].label@ == unknown_block_label(blocks@[i]@)
                &&& r@[i].block@ == blocks@[i]@
                &&& r@[i].export@ == blocks@[i]@
            },
{
    let mut out: Vec<InstalledFontBlock> = Vec::new();
    let mut i: usize = 0;
    while i < blocks.len()
        invariant
            i <= blocks.len(),
            out@.len() == i,
            forall|j: int|
                0 <= j < i ==> {
                    &&& #[trigger] out@[j].label@ == unknown_block_label(blocks@[j]@)
                    &&& out@[j].block@ == blocks@[j]@
                    &&& out@[j].export@ == blocks@[j]@
                },
        decreases blocks.len() - i,
    {
        out.push(unknown_block(blocks[i].clone()));
        i = i + 1;
    }
    out
}

/// `sample` with whitespace removed and three spaces after each glyph, the
/// trailing spaces trimmed.
pub open spec fn expanded_cells(s: Seq<char>) -> Seq<char>
    decreases s.len(),
{
    if s.len() == 0 {
        seq![]
    } else if is_ws(s.last()) {
        expanded_cells(s.drop_last())
    } else if expanded_cells(s.drop_last()).len() == 0 {
        seq![s.last()]
    } else {
        expanded_cells(s.drop_last()) + seq![' ', ' ', ' ', s.last()]
    }
}

/// The characters of `s` that are not whitespace, in order.
pub open spec fn glyph_chars(s: Seq<char>) -> Seq<char>
    decreases s.len(),
{
    if s.len() == 0 {
        seq![]
    } else if is_ws(s.last()) {
        glyph_chars(s.drop_last())
    } else {
        glyph_chars(s.drop_last()).push(s.last())
    }
}

/// The cells are the glyphs of the sample, three spaces apart: glyph `j`
/// stands at column `4 j`, spaces fill the rest, and nothing comes before
/// the first glyph or after the last.
pub proof fn lemma_expanded_cells_layout(s: Seq<char>)
    ensures
        expanded_cells(s).len() == (if glyph_chars(s).len() == 0 {
            0
        } else {
            4 * glyph_chars(s).len() - 3
        }),
        forall|i: int|
            0 <= i < expanded_cells(s).len() ==> #[trigger] expanded_cells(s)[i] == (if i % 4 == 0 {
                glyph_chars(s)[i / 4]
            } else {
                ' '
            }),
    decreases s.len(),
{
    if s.len() > 0 {
        let p = s.drop_last();
        lemma_expanded_cells_layout(p);
        let e = expanded_cells(s);
        let pe = expanded_cells(p);
        let g = glyph_chars(s);
        let pg = glyph_chars(p);
        if !is_ws(s.last()) {
            if pe.len() == 0 {
                assert(pg.len() == 0);
                assert(e =~= seq![s.last()]);
            } else {
                let n = pg.len() as int;
                assert(pe.len() == 4 * n - 3);
                assert forall|i: int| 0 <= i < e.len() implies #[trigger] e[i] == (if i % 4 == 0 { g[i / 4] } else { ' ' }) by {
                    if i < pe.len() {
                        assert(e[i] == pe[i]);
                        if i % 4 == 0 {
                            assert(g[i / 4] == pg[i / 4]);
                        }
                    } else if i == 4 * n {
                        assert(i / 4 == n);
                    } else {
                        assert(i % 4 != 0);
                    }
                }
            }
        }
    }
}

/// Spreads the glyphs of a standard sample into cells three spaces apart.
pub fn expand_standard_sample_cells(sample: &str) -> (r: String)
    ensures
        r@ == expanded_cells(sample@),
{
    let s = chars_of(sample);
    let mut out: Vec<char> = Vec::new();
    let mut i: usize = 0;
    while i < s.len()
        invariant
            i <= s.len(),
            out@ == expanded_cells(s@.take(i as int)),
        decreases s.len() - i,
    {
        proof {
            assert(s@.take(i + 1).drop_last() =~= s@.take(i as int));
        }
        if !char_is_ws(s[i]) {
            if out.len() > 0 {
                out.push(' ');
                out.push(' ');
                out.push(' ');
            }
            out.push(s[i]);
            proof {
                assert(out@ =~= expanded_cells(s@.take(i + 1)));
            }
        }
        i = i + 1;
    }
    proof {
        assert(s@.take(s.len() as int) =~= s@);
    }
    string_of(&out)
}

// ---------------------------------------------------------------------------
// Wrapping sample text for display
// ---------------------------------------------------------------------------
/// The lines of one logical line cut into chunks of `width` characters.
pub open spec fn chunks(s: Seq<char>, width: nat) -> Seq<Seq<char>>
    decreases s.len(),
{
    if s.len() == 0 || width == 0 {
        seq![]
    } else if s.len() <= width {
        seq![s]
    } else {
        seq![s.take(width as int)] + chunks(s.skip(width as int), width)
    }
}

/// The items of `s.split('\n')`.
pub open spec fn split_lines(s: Seq<char>) -> Seq<Seq<char>>
    decreases s.len(),
{
    if s.len() == 0 {
        seq![seq![]]
    } else {
        let prev = split_lines(s.drop_last());
        if s.last() == '\n' {
            prev.push(seq![])
        } else {
            prev.update(prev.len() - 1, prev.last().push(s.last()))
        }
    }
}

pub proof fn lemma_split_lines_len(s: Seq<char>)
    ensures
        split_lines(s).len() >= 1,
    decreases s.len(),
{
    if s.len() > 0 {
        lemma_split_lines_len(s.drop_last());
    }
}

/// The display lines of each logical line: an empty line stays, a longer
/// one is cut into chunks.
pub open spec fn wrap_lines(lines: Seq<Seq<char>>, width: nat) -> Seq<Seq<char>>
    decreases lines.len(),
{
    if lines.len() == 0 {
        seq![]
    } else {
        let l = lines.last();
        wrap_lines(lines.drop_last(), width) + (if l.len() == 0 {
            seq![seq![]]
        } else {
            chunks(l, width)
        })
    }
}

/// `wrap_sample_for_display`: no lines for an empty sample, otherwise the
/// wrapped lines of each `\n`-separated line, at least one character wide.
pub open spec fn wrapped_sample(s: Seq<char>, max_chars: nat) -> Seq<Seq<char>> {
    if s.len() == 0 {
        seq![]
    } else {
        wrap_lines(split_lines(s), if max_chars == 0 {
            1
        } else {
            max_chars
        })
    }
}

/// No character of `s` is a newline.
pub open spec fn no_newline(s: Seq<char>) -> bool {
    forall|k: int| 0 <= k < s.len() ==> #[trigger] s[k] != '\n'
}

proof fn lemma_chunks_fit(s: Seq<char>, width: nat)
    requires
        width > 0,
        no_newline(s),
    ensures
        forall|i: int| 0 <= i < chunks(s, width).len() ==> #[trigger] chunks(s, width)[i].len() <= width
            && no_newline(chunks(s, width)[i]),
    decreases s.len(),
{
    if s.len() > width {
        let rest = s.skip(width as int);
        lemma_chunks_fit(rest, width);
        let c = chunks(s, width);
        assert(c == seq![s.take(width as int)] + chunks(rest, width));
        assert forall|i: int| 0 <= i < c.len() implies #[trigger] c[i].len() <= width && no_newline(c[i]) by {
            if i > 0 {
                assert(c[i] == chunks(rest, width)[i - 1]);
            }
        }
    }
}

proof fn lemma_split_lines_no_newline(s: Seq<char>)
    ensures
        forall|i: int| 0 <= i < split_lines(s).len() ==> no_newline(#[trigger] split_lines(s)[i]),
    decreases s.len(),
{
    if s.len() > 0 {
        lemma_split_lines_no_newline(s.drop_last());
        lemma_split_lines_len(s.drop_last());
        let prev = split_lines(s.drop_last());
        let l = split_lines(s);
        if s.last() != '\n' {
            assert forall|i: int| 0 <= i < l.len() implies no_newline(#[trigger] l[i]) by {
                if i == prev.len() - 1 {
                    assert(l[i] == prev.last().push(s.last()));
                    assert(no_newline(prev[i]));
                    assert forall|k: int| 0 <= k < l[i].len() implies #[trigger] l[i][k] != '\n' by {
                        if k < prev[i].len() {
                            assert(l[i][k] == prev[i][k]);
                        }
                    }
                }
            }
        } else {
            assert forall|i: int| 0 <= i < l.len() implies no_newline(#[trigger] l[i]) by {
                if i < prev.len() {
                    assert(l[i] == prev[i]);
                }
            }
        }
    }
}

proof fn lemma_wrap_lines_fit(lines: Seq<Seq<char>>, width: nat)
    requires
        width > 0,
        forall|i: int| 0 <= i < lines.len() ==> no_newline(#[trigger] lines[i]),
    ensures
        forall|i: int| 0 <= i < wrap_lines(lines, width).len() ==> #[trigger] wrap_lines(lines, width)[i].len() <= width
            && no_newline(wrap_lines(lines, width)[i]),
    decreases lines.len(),
{
    if lines.len() > 0 {
        let init = lines.drop_last();
        assert forall|i: int| 0 <= i < init.len() implies no_newline(#[trigger] init[i]) by {
            assert(init[i] == lines[i]);
        }
        lemma_wrap_lines_fit(init, width);
        let l = lines.last();
        assert(no_newline(lines[lines.len() - 1]));
        let tail = if l.len() == 0 { seq![seq![]] } else { chunks(l, width) };
        if l.len() > 0 {
            lemma_chunks_fit(l, width);
        } else {
            assert(no_newline(tail[0]));
        }
        let w = wrap_lines(lines, width);
        let head = wrap_lines(init, width);
        assert(w == head + tail);
        assert forall|i: int| 0 <= i < w.len() implies #[trigger] w[i].len() <= width && no_newline(w[i]) by {
            if i < head.len() {
                assert(w[i] == head[i]);
            } else {
                assert(w[i] == tail[i - head.len()]);
            }
        }
    }
}

/// The wrapped sample is made of lines no longer than the width (one
/// character at least) and with no newline in them.
pub proof fn lemma_wrapped_sample_lines_fit(s: Seq<char>, max_chars: nat)
    ensures
        forall|i: int|
            0 <= i < wrapped_sample(s, max_chars).len() ==> #[trigger] wrapped_sample(s, max_chars)[i].len() <= (if max_chars
                == 0 {
                1
            } else {
                max_chars
            }) && no_newline(wrapped_sample(s, max_chars)[i]),
{
    if s.len() > 0 {
        lemma_split_lines_no_newline(s);
        lemma_wrap_lines_fit(split_lines(s), if max_chars == 0 { 1 } else { max_chars });
    }
}

fn push_chunks(out: &mut Vec<String>, line: &Vec<char>, width: usize)
    requires
        width >= 1,
    ensures
        views(final(out)@) == views(old(out)@) + chunks(line@, width as nat),
{
    let mut start: usize = 0;
    let ghost base = views(old(out)@);
    proof {
        assert(line@.skip(0) =~= line@);
    }
    while start < line.len()
        invariant
            width >= 1,
            start <= line.len(),
            views(out@) + chunks(line@.skip(start as int), width as nat) == base + chunks(
                line@,
                width as nat,
            ),
        decreases line.len() - start,
    {
        let rest = line.len() - start;
        let end = if rest <= width { line.len() } else { start + width };
        let piece = slice_chars_owned(line, start, end);
        let ghost before = views(out@);
        let ghost tail = line@.skip(start as int);
        out.push(string_of(&piece));
        proof {
            assert(views(out@) =~= before.push(piece@));
            if rest <= width {
                assert(piece@ =~= tail);
                assert(chunks(tail, width as nat) == seq![tail]);
                assert(line@.skip(end as int).len() == 0);
                assert(chunks(line@.skip(end as int), width as nat) =~= seq![]);
            } else {
                assert(piece@ =~= tail.take(width as int));
                assert(tail.skip(width as int) =~= line@.skip(end as int));
            }
            assert(before.push(piece@) + chunks(line@.skip(end as int), width as nat) =~= before
                + chunks(tail, width as nat));
        }
        start = end;
    }
    proof {
        assert(chunks(line@.skip(start as int), width as nat) =~= seq![]);
        assert(views(out@) + seq![] =~= views(out@));
    }
}

fn slice_chars_owned(s: &Vec<char>, from: usize, to: usize) -> (r: Vec<char>)
    requires
        from <= to <= s.len(),
    ensures
        r@ == s@.subrange(from as int, to as int),
{
    crate::text::slice_chars(s, from, to)
}

/// Splits an installed-font sample into display lines of at most
/// `max_chars` characters (at least one), keeping its line breaks.
pub fn wrap_sample_for_display(sample: &str, max_chars: usize) -> (r: Vec<String>)
    ensures
        views(r@) == wrapped_sample(sample@, max_chars as nat),
{
    let s = chars_of(sample);
    if s.len() == 0 {
        return Vec::new();
    }
    let target: usize = if max_chars == 0 { 1 } else { max_chars };
    let mut lines: Vec<String> = Vec::new();
    // The current logical line and the logical lines completed before it.
    let mut current: Vec<char> = Vec::new();
    let ghost mut done: Seq<Seq<char>> = seq![];
    let mut i: usize = 0;
    proof {
        assert(s@.take(0) =~= seq![]);
        assert(split_lines(seq![]) =~= seq![seq![]]);
    }
    while i < s.len()
        invariant
            i <= s.len(),
            target >= 1,
            split_lines(s@.take(i as int)) == done.push(current@),
            views(lines@) == wrap_lines(done, target as nat),
        decreases s.len() - i,
    {
        proof {
            assert(s@.take(i + 1).drop_last() =~= s@.take(i as int));
            lemma_split_lines_len(s@.take(i as int));
        }
        if s[i] == '\n' {
            let ghost before = views(lines@);
            if current.len() == 0 {
                lines.push(String::new());
                proof {
                    assert(done.push(current@).drop_last() == done);
                    assert(views(lines@) =~= before.push(seq![]));
                    assert(wrap_lines(done.push(current@), target as nat) =~= before + seq![seq![]]);
                }
            } else {
                push_chunks(&mut lines, &current, target);
                proof {
                    assert(done.push(current@).drop_last() == done);
                    assert(done.push(current@).last() == current@);
                }
            }
            proof {
                done = done.push(current@);
                assert(done.push(seq![]).drop_last() == done);
            }
            current = Vec::new();
            proof {
                assert(split_lines(s@.take(i + 1)) =~= done.push(current@));
            }
        } else {
            let ghost prev = split_lines(s@.take(i as int));
            current.push(s[i]);
            proof {
                assert(split_lines(s@.take(i + 1)) =~= done.push(current@));
            }
        }
        i = i + 1;
    }
    proof {
        assert(s@.take(s.len() as int) =~= s@);
    }
    let ghost before = views(lines@);
    if current.len() == 0 {
        lines.push(String::new());
        proof {
            assert(done.push(current@).drop_last() == done);
            assert(views(lines@) =~= before.push(seq![]));
            assert(wrap_lines(done.push(current@), target as nat) =~= before + seq![seq![]]);
        }
    } else {
        push_chunks(&mut lines, &current, target);
        proof {
            assert(done.push(current@).drop_last() == done);
        }
    }
    lines
}

/// The display lines of an installed-font block.
pub fn installed_font_block_display_lines(block: &str, max_chars: usize) -> (r: Vec<String>)
    ensures
        views(r@) == wrapped_sample(block@, max_chars as nat),
{
    wrap_sample_for_display(block, max_chars)
}

// ---------------------------------------------------------------------------
// Animation playback
// ---------------------------------------------------------------------------
/// The frame an installed animation shows `elapsed_ms` milliseconds after it
/// started: frames advance `fps` (at least 1) times per second, cyclically.
pub open spec fn frame_index_at(fps: u8, frame_count: nat, elapsed_ms: nat) -> nat {
    if frame_count <= 1 {
        0
    } else {
        let f: nat = if fps == 0 {
            1
        } else {
            fps as nat
        };
        ((elapsed_ms * f / 1000) % (usize::MAX as nat + 1)) % frame_count
    }
}

/// The frame of an installed animation shown `now_ms - started_at_ms`
/// milliseconds after it started (clock readings in milliseconds).
pub fn installed_animation_frame_index(fps: u8, frame_count: usize, started_at_ms: u64, now_ms: u64) -> (r: usize)
    ensures
        r as nat == frame_index_at(
            fps,
            frame_count as nat,
            (if now_ms >= started_at_ms {
                now_ms - started_at_ms
            } else {
                0
            }) as nat,
        ),
        frame_count > 0 ==> r < frame_count,
{
    if frame_count <= 1 {
        return 0;
    }
    let f: u128 = if fps == 0 { 1 } else { fps as u128 };
    let elapsed: u128 = if now_ms >= started_at_ms { (now_ms - started_at_ms) as u128 } else { 0 };
    assert(elapsed * f <= u64::MAX as u128 * 255) by (nonlinear_arith)
        requires
            elapsed <= u64::MAX,
            f <= 255,
    ;
    let ticks = elapsed * f / 1000;
    let wrapped = (ticks % (usize::MAX as u128 + 1)) as usize;
    wrapped % frame_count
}

/// The lines of the current frame of an installed animation preview.
pub fn installed_animation_preview_lines(
    preview: &InstalledFontAnimationPreview,
    max_chars: usize,
    started_at_ms: u64,
    now_ms: u64,
) -> (r: Option<Vec<String>>)
    ensures
        preview.frame_blocks@.len() == 0 ==> r is None,
        preview.frame_blocks@.len() > 0 ==> (r matches Some(lines) && views(lines@)
            == wrapped_sample(
            preview.frame_blocks@[frame_index_at(
                preview.fps,
                preview.frame_blocks@.len(),
                (if now_ms >= started_at_ms {
                    now_ms - started_at_ms
                } else {
                    0
                }) as nat,
            ) as int]@,
            max_chars as nat,
        )),
{
    if preview.frame_blocks.len() == 0 {
        return None;
    }
    let idx = installed_animation_frame_index(preview.fps, preview.frame_blocks.len(), started_at_ms, now_ms);
    Some(installed_font_block_display_lines(preview.frame_blocks[idx].as_str(), max_chars))
}

} // verus!
