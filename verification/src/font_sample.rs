//! The sample of an installed font that has no install metadata: the
//! first characters (by codepoint) that the font maps to an outline, read
//! from its `cmap` with `ttf-parser`.
use vstd::prelude::*;
use crate::keys::{char_from_u32, is_scalar};
use crate::text::string_of;
use std::collections::BTreeSet;

verus! {

#[verifier::external_type_specification]
#[verifier::external_body]
pub struct ExFace<'a>(ttf_parser::Face<'a>);

#[verifier::external_type_specification]
#[verifier::external_body]
pub struct ExSubtables<'a>(ttf_parser::cmap::Subtables<'a>);

#[verifier::external_type_specification]
#[verifier::external_body]
pub struct ExSubtable<'a>(ttf_parser::cmap::Subtable<'a>);

/// A face parsed from `bytes` (as face 0), kept with the bytes it was
/// parsed from.
pub struct ParsedFont<'a> {
    face: ttf_parser::Face<'a>,
    bytes: Ghost<Seq<u8>>,
}

impl<'a> View for ParsedFont<'a> {
    type V = Seq<u8>;

    closed spec fn view(&self) -> Seq<u8> {
        self.bytes@
    }
}

/// The encoding records of the `cmap` table of the font parsed from
/// `bytes`.
pub struct CmapTables<'a> {
    tables: ttf_parser::cmap::Subtables<'a>,
    bytes: Ghost<Seq<u8>>,
}

impl<'a> View for CmapTables<'a> {
    type V = Seq<u8>;

    closed spec fn view(&self) -> Seq<u8> {
        self.bytes@
    }
}

/// Encoding record `index` of the `cmap` table of the font parsed from
/// `bytes`.
pub struct CmapSubtable<'a> {
    table: ttf_parser::cmap::Subtable<'a>,
    bytes: Ghost<Seq<u8>>,
    index: Ghost<u16>,
}

impl<'a> View for CmapSubtable<'a> {
    type V = (Seq<u8>, u16);

    closed spec fn view(&self) -> (Seq<u8>, u16) {
        (self.bytes@, self.index@)
    }
}

/// Whether `ttf_parser::Face::parse` accepts `bytes` as face 0 of a font.
pub uninterp spec fn ttf_parses(bytes: Seq<u8>) -> bool;

/// Whether the face parsed from `bytes` has a `cmap` table
/// (`Face::tables().cmap`).
pub uninterp spec fn ttf_has_cmap(bytes: Seq<u8>) -> bool;

/// The number of encoding records of that `cmap` (`Subtables::len`).
pub uninterp spec fn ttf_cmap_len(bytes: Seq<u8>) -> u16;

/// Whether encoding record `index` can be read (`Subtables::get`).
pub uninterp spec fn ttf_subtable_readable(bytes: Seq<u8>, index: u16) -> bool;

/// Whether encoding record `index` is a Unicode one (`Subtable::is_unicode`).
pub uninterp spec fn ttf_subtable_unicode(bytes: Seq<u8>, index: u16) -> bool;

/// The codepoints encoding record `index` reports, in the order
/// `Subtable::codepoints` reports them.
pub uninterp spec fn ttf_subtable_codepoints(bytes: Seq<u8>, index: u16) -> Seq<u32>;

/// The glyph the face maps `c` to (`Face::glyph_index`), by its number.
pub uninterp spec fn ttf_glyph_index(bytes: Seq<u8>, c: char) -> Option<u16>;

/// Whether glyph `glyph` has an outline (`Face::glyph_bounding_box` finds
/// a box).
pub uninterp spec fn ttf_glyph_has_box(bytes: Seq<u8>, glyph: u16) -> bool;

/// Calls `ttf_parser::Face::parse(bytes, 0)`, dropping the error.  The
/// face is there exactly when the bytes parse, and is kept with them.
#[verifier::external_body]
fn parse_face<'a>(bytes: &'a [u8]) -> (r: Option<ParsedFont<'a>>)
    ensures
        r is Some <==> ttf_parses(bytes@),
        r matches Some(f) ==> f@ == bytes@,
{
    match ttf_parser::Face::parse(bytes, 0) {
        Ok(face) => Some(ParsedFont { face, bytes: Ghost(bytes@) }),
        Err(_) => None,
    }
}

/// Calls `Face::tables` and takes the subtables of its `cmap` table, if the
/// font has one: a function of the font's bytes.
#[verifier::external_body]
fn cmap_subtables<'a>(font: &ParsedFont<'a>) -> (r: Option<CmapTables<'a>>)
    ensures
        r is Some <==> ttf_has_cmap(font@),
        r matches Some(t) ==> t@ == font@,
{
    match font.face.tables().cmap {
        Some(table) => Some(CmapTables { tables: table.subtables, bytes: font.bytes }),
        None => None,
    }
}

/// Calls `Subtables::len`: the number of encoding records.
#[verifier::external_body]
fn subtable_count<'a>(tables: &CmapTables<'a>) -> (r: u16)
    ensures
        r == ttf_cmap_len(tables@),
{
    tables.tables.len()
}

/// Calls `Subtables::get`: the encoding record `index`, when it can be read.
#[verifier::external_body]
fn subtable_at<'a>(tables: &CmapTables<'a>, index: u16) -> (r: Option<CmapSubtable<'a>>)
    ensures
        r is Some <==> ttf_subtable_readable(tables@, index),
        r matches Some(t) ==> t@ == (tables@, index),
{
    match tables.tables.get(index) {
        Some(table) => Some(CmapSubtable { table, bytes: tables.bytes, index: Ghost(index) }),
        None => None,
    }
}

/// Calls `Subtable::is_unicode`.
#[verifier::external_body]
fn subtable_is_unicode<'a>(subtable: &CmapSubtable<'a>) -> (r: bool)
    ensures
        r == ttf_subtable_unicode(subtable@.0, subtable@.1),
{
    subtable.table.is_unicode()
}

/// Calls `Subtable::codepoints` and collects the codepoints it reports, in
/// the order it reports them.
#[verifier::external_body]
fn subtable_codepoints<'a>(subtable: &CmapSubtable<'a>) -> (r: Vec<u32>)
    ensures
        r@ == ttf_subtable_codepoints(subtable@.0, subtable@.1),
{
    let mut out = Vec::new();
    subtable.table.codepoints(|codepoint| out.push(codepoint));
    out
}

/// Calls `Face::glyph_index`, giving the glyph's number.
#[verifier::external_body]
fn glyph_index<'a>(font: &ParsedFont<'a>, c: char) -> (r: Option<u16>)
    ensures
        r == ttf_glyph_index(font@, c),
{
    font.face.glyph_index(c).map(|glyph| glyph.0)
}

/// Calls `Face::glyph_bounding_box` and tells whether it found a box (the
/// glyph has an outline).
#[verifier::external_body]
fn has_bounding_box<'a>(font: &ParsedFont<'a>, glyph: u16) -> (r: bool)
    ensures
        r == ttf_glyph_has_box(font@, glyph),
{
    match font.face.glyph_bounding_box(ttf_parser::GlyphId(glyph)) {
        Some(_) => true,
        None => false,
    }
}

/// A codepoint the sample may show: a printable scalar value (above the
/// space, not a surrogate).
pub open spec fn eligible(cp: u32) -> bool {
    0x20 < cp && cp <= 0x10FFFF && !(0xD800 <= cp && cp <= 0xDFFF)
}

pub open spec fn strictly_increasing(s: Seq<u32>) -> bool {
    forall|i: int, j: int| 0 <= i < j < s.len() ==> s[i] < s[j]
}

/// The elements of `s` in increasing order.
pub open spec fn increasing_elems(s: Set<u32>) -> Seq<u32> {
    choose|q: Seq<u32>| strictly_increasing(q) && q.to_set() == s
}

/// Two increasing sequences with the same elements are the same sequence.
proof fn lemma_increasing_unique(a: Seq<u32>, b: Seq<u32>)
    requires
        strictly_increasing(a),
        strictly_increasing(b),
        a.to_set() == b.to_set(),
    ensures
        a == b,
    decreases a.len(),
{
    if a.len() == 0 {
        if b.len() > 0 {
            assert(b.to_set().contains(b[0]));
        }
        assert(b.len() == 0);
        assert(a =~= b);
    } else {
        assert(a.to_set().contains(a[0]));
        assert(b.len() > 0);
        assert(b.to_set().contains(b[0]));
        let i = choose|i: int| 0 <= i < a.len() && a[i] == b[0];
        let j = choose|j: int| 0 <= j < b.len() && b[j] == a[0];
        if i > 0 {
            assert(a[0] < a[i]);
        }
        if j > 0 {
            assert(b[0] < b[j]);
        }
        assert(a[0] == b[0]);
        let a1 = a.drop_first();
        let b1 = b.drop_first();
        assert forall|x: u32| a1.to_set().contains(x) <==> b1.to_set().contains(x) by {
            if a1.to_set().contains(x) {
                let k = choose|k: int| 0 <= k < a1.len() && a1[k] == x;
                assert(a[k + 1] == x && a[0] < a[k + 1]);
                assert(a.to_set().contains(x));
                let m = choose|m: int| 0 <= m < b.len() && b[m] == x;
                assert(m != 0);
                assert(b1[m - 1] == x);
            }
            if b1.to_set().contains(x) {
                let k = choose|k: int| 0 <= k < b1.len() && b1[k] == x;
                assert(b[k + 1] == x && b[0] < b[k + 1]);
                assert(b.to_set().contains(x));
                let m = choose|m: int| 0 <= m < a.len() && a[m] == x;
                assert(m != 0);
                assert(a1[m - 1] == x);
            }
        }
        assert(a1.to_set() =~= b1.to_set());
        lemma_increasing_unique(a1, b1);
        assert(a.len() == b.len());
        assert forall|k: int| 0 <= k < a.len() implies a[k] == b[k] by {
            if k > 0 {
                assert(a[k] == a1[k - 1] && b[k] == b1[k - 1]);
            }
        }
        assert(a =~= b);
    }
}

/// An increasing sequence is the one `increasing_elems` names.
proof fn lemma_increasing_elems(q: Seq<u32>)
    requires
        strictly_increasing(q),
    ensures
        increasing_elems(q.to_set()) == q,
{
    let s = q.to_set();
    let r = increasing_elems(s);
    assert(strictly_increasing(r) && r.to_set() == s);
    lemma_increasing_unique(r, q);
}

/// The sample so far: the codepoints taken, and whether a codepoint was
/// left out because the sample was full.
#[derive(Debug, Clone)]
pub struct FontSample {
    pub codepoints: BTreeSet<u32>,
    pub truncated: bool,
}

/// One codepoint of the `cmap` (with whether the font draws it) offered to
/// the sample: taken while there is room, noted as left out when there is
/// none; repeats and codepoints that cannot be shown change nothing.
pub open spec fn sample_step(st: (Set<u32>, bool), cp: u32, drawn: bool, limit: nat) -> (Set<u32>, bool) {
    if !(eligible(cp) && drawn) || st.0.contains(cp) {
        st
    } else if st.0.len() < limit {
        (st.0.insert(cp), st.1)
    } else {
        (st.0, true)
    }
}

/// What a sample can be: finitely many showable codepoints, no more than
/// `limit`, and full when something was left out.
pub open spec fn sample_wf(cps: Set<u32>, truncated: bool, limit: nat) -> bool {
    &&& cps.finite()
    &&& forall|x: u32| #[trigger] cps.contains(x) ==> eligible(x)
    &&& cps.len() <= limit
    &&& truncated ==> cps.len() == limit
}

proof fn lemma_u32_keys_ordered()
    ensures
        vstd::laws_cmp::obeys_cmp::<u32>(),
        vstd::std_specs::btree::key_obeys_cmp_spec::<u32>(),
{
    broadcast use vstd::laws_cmp::group_laws_cmp;
    broadcast use vstd::std_specs::btree::group_btree_axioms;
}

/// The keys of a `BTreeSet<u32>` walked in order are increasing.
proof fn lemma_keys_increasing(keys: Seq<&u32>)
    requires
        vstd::std_specs::btree::increasing_seq(keys),
    ensures
        strictly_increasing(keys.unref()),
{
    broadcast use vstd::laws_cmp::group_laws_cmp;
    broadcast use vstd::std_specs::btree::group_btree_axioms;
    let q = keys.unref();
    assert forall|i: int, j: int| 0 <= i < j < q.len() implies q[i] < q[j] by {
        assert(vstd::std_specs::cmp::OrdSpec::cmp_spec(&keys[i], &keys[j]) is Less);
    }
}

/// Offers one codepoint to the sample.
pub fn add_sample_codepoint(sample: &mut FontSample, codepoint: u32, drawn: bool, limit: usize)
    requires
        sample_wf(old(sample).codepoints@, old(sample).truncated, limit as nat),
    ensures
        (final(sample).codepoints@, final(sample).truncated) == sample_step(
            (old(sample).codepoints@, old(sample).truncated),
            codepoint,
            drawn,
            limit as nat,
        ),
        sample_wf(final(sample).codepoints@, final(sample).truncated, limit as nat),
{
    broadcast use vstd::std_specs::btree::group_btree_axioms;
    proof {
        lemma_u32_keys_ordered();
    }
    let ok = drawn && 0x20 < codepoint && codepoint <= 0x10FFFF && !(0xD800 <= codepoint && codepoint <= 0xDFFF);
    if !ok {
        return;
    }
    if sample.codepoints.contains(&codepoint) {
        return;
    }
    if sample.codepoints.len() < limit {
        sample.codepoints.insert(codepoint);
    } else {
        sample.truncated = true;
    }
}

/// The characters of the codepoints that are scalar values.
pub open spec fn scalar_chars(s: Seq<u32>) -> Seq<char>
    decreases s.len(),
{
    if s.len() == 0 {
        Seq::empty()
    } else if is_scalar(s.last() as nat) {
        scalar_chars(s.drop_last()).push(s.last() as char)
    } else {
        scalar_chars(s.drop_last())
    }
}

/// The sample text, its characters in codepoint order, and whether it was
/// cut short; none when the sample is empty.
pub open spec fn sample_result(cps: Set<u32>, truncated: bool) -> Option<(Seq<char>, bool)> {
    let text = scalar_chars(increasing_elems(cps));
    if text.len() == 0 {
        None
    } else {
        Some((text, truncated))
    }
}

pub fn finish_font_sample(sample: &FontSample) -> (r: Option<(String, bool)>)
    ensures
        (match r {
            Some((s, t)) => Some((s@, t)),
            None => None,
        }) == sample_result(sample.codepoints@, sample.truncated),
        strictly_increasing(increasing_elems(sample.codepoints@)),
        increasing_elems(sample.codepoints@).to_set() == sample.codepoints@,
{
    broadcast use vstd::std_specs::btree::group_btree_axioms;
    proof {
        lemma_u32_keys_ordered();
    }
    let ghost keys = vstd::std_specs::iter::IteratorSpec::remaining(
        &vstd::std_specs::btree::spec_btree_keys_iter(&sample.codepoints),
    );
    let mut out: Vec<char> = Vec::new();
    for cp in it: sample.codepoints.iter()
        invariant
            it.seq() == keys,
            out@ == scalar_chars(keys.unref().take(it.index())),
    {
        proof {
            let t = keys.unref().take(it.index() + 1);
            assert(t.drop_last() =~= keys.unref().take(it.index()));
            assert(t.last() == *cp);
        }
        match char_from_u32(*cp) {
            Some(c) => out.push(c),
            None => {},
        }
    }
    let ghost q = keys.unref();
    proof {
        assert(q.take(q.len() as int) =~= q);
        assert(q.to_set() == sample.codepoints@);
        lemma_keys_increasing(keys);
        lemma_increasing_elems(q);
    }
    if out.len() == 0 {
        None
    } else {
        Some((string_of(&out), sample.truncated))
    }
}

proof fn lemma_scalar_chars_of_eligible(s: Seq<u32>)
    requires
        forall|i: int| 0 <= i < s.len() ==> eligible(#[trigger] s[i]),
    ensures
        scalar_chars(s).len() == s.len(),
        forall|i: int| 0 <= i < s.len() ==> #[trigger] scalar_chars(s)[i] == s[i] as char,
    decreases s.len(),
{
    if s.len() > 0 {
        lemma_scalar_chars_of_eligible(s.drop_last());
        assert(eligible(s[s.len() - 1]));
        assert forall|i: int| 0 <= i < s.len() implies #[trigger] scalar_chars(s)[i] == s[i] as char by {
            if i < s.len() - 1 {
                assert(s.drop_last()[i] == s[i]);
            }
        }
    }
}

/// Whether the font parsed from `bytes` draws `cp`: a showable codepoint
/// mapped to a glyph that has an outline.
pub open spec fn drawn(bytes: Seq<u8>, cp: u32) -> bool {
    eligible(cp) && match ttf_glyph_index(bytes, cp as char) {
        Some(g) => ttf_glyph_has_box(bytes, g),
        None => false,
    }
}

/// The sample after offering `cps` in order, from `st`.
pub open spec fn sample_of(bytes: Seq<u8>, st: (Set<u32>, bool), cps: Seq<u32>, limit: nat) -> (Set<u32>, bool)
    decreases cps.len(),
{
    if cps.len() == 0 {
        st
    } else {
        sample_step(sample_of(bytes, st, cps.drop_last(), limit), cps.last(), drawn(bytes, cps.last()), limit)
    }
}

/// The codepoints of the Unicode encoding records from record `i` on, in
/// table order, up to the first record that cannot be read.
pub open spec fn unicode_codepoints_from(bytes: Seq<u8>, i: int) -> Seq<u32>
    decreases ttf_cmap_len(bytes) - i,
{
    if i < 0 || i >= ttf_cmap_len(bytes) || !ttf_subtable_readable(bytes, i as u16) {
        Seq::empty()
    } else {
        (if ttf_subtable_unicode(bytes, i as u16) {
            ttf_subtable_codepoints(bytes, i as u16)
        } else {
            Seq::empty()
        }) + unicode_codepoints_from(bytes, i + 1)
    }
}

/// The sample of the font in `bytes`: the first `limit` characters (by
/// codepoint) that its Unicode `cmap` records report and it draws, and
/// whether more were left out; none for a file that does not parse, has
/// no `cmap` or yields no character.
pub open spec fn font_sample(bytes: Seq<u8>, limit: nat) -> Option<(Seq<char>, bool)> {
    if limit == 0 || !ttf_parses(bytes) || !ttf_has_cmap(bytes) {
        None
    } else {
        let st = sample_of(bytes, (Set::empty(), false), unicode_codepoints_from(bytes, 0), limit);
        sample_result(st.0, st.1)
    }
}

proof fn lemma_sample_of_concat(bytes: Seq<u8>, st: (Set<u32>, bool), a: Seq<u32>, b: Seq<u32>, limit: nat)
    ensures
        sample_of(bytes, st, a + b, limit) == sample_of(bytes, sample_of(bytes, st, a, limit), b, limit),
    decreases b.len(),
{
    if b.len() == 0 {
        assert(a + b =~= a);
    } else {
        lemma_sample_of_concat(bytes, st, a, b.drop_last(), limit);
        assert((a + b).drop_last() =~= a + b.drop_last());
        assert((a + b).last() == b.last());
    }
}

/// A full sample that already left something out changes no more.
proof fn lemma_sample_of_full(bytes: Seq<u8>, st: (Set<u32>, bool), cps: Seq<u32>, limit: nat)
    requires
        st.0.len() >= limit,
        st.1,
    ensures
        sample_of(bytes, st, cps, limit) == st,
    decreases cps.len(),
{
    if cps.len() > 0 {
        lemma_sample_of_full(bytes, st, cps.drop_last(), limit);
    }
}

fn is_drawn(font: &ParsedFont, cp: u32) -> (r: bool)
    ensures
        r == drawn(font@, cp),
{
    if 0x20 < cp && cp <= 0x10FFFF && !(0xD800 <= cp && cp <= 0xDFFF) {
        match char_from_u32(cp) {
            Some(c) => match glyph_index(font, c) {
                Some(g) => has_bounding_box(font, g),
                None => false,
            },
            None => false,
        }
    } else {
        false
    }
}

pub open spec fn sample_view(r: Option<(String, bool)>) -> Option<(Seq<char>, bool)> {
    match r {
        Some((s, t)) => Some((s@, t)),
        None => None,
    }
}

/// The sample of a font file: up to `limit` characters that its Unicode
/// `cmap` subtables map to a glyph with an outline, in codepoint order,
/// and whether more were left out.  Subtables are read in order (stopping
/// at one that cannot be read, and once the sample is full and something
/// was left out); nothing comes back for a file that does not parse, has
/// no `cmap`, or yields no character.
pub fn sample_glyphs_from_ttf_bytes(bytes: &[u8], limit: usize) -> (r: Option<(String, bool)>)
    ensures
        sample_view(r) == font_sample(bytes@, limit as nat),
        r matches Some((s, t)) ==> {
            &&& 1 <= s@.len() <= limit
            &&& forall|i: int, j: int| 0 <= i < j < s@.len() ==> (s@[i] as u32) < (s@[j] as u32)
            &&& forall|i: int| 0 <= i < s@.len() ==> ' ' < #[trigger] s@[i]
            &&& t ==> s@.len() == limit
        },
{
    broadcast use vstd::std_specs::btree::group_btree_axioms;
    if limit == 0 {
        return None;
    }
    proof {
        lemma_u32_keys_ordered();
    }
    let font = match parse_face(bytes) {
        Some(font) => font,
        None => return None,
    };
    let tables = match cmap_subtables(&font) {
        Some(tables) => tables,
        None => return None,
    };
    let ghost b = bytes@;
    let ghost total = sample_of(b, (Set::empty(), false), unicode_codepoints_from(b, 0), limit as nat);
    let mut sample = FontSample { codepoints: BTreeSet::new(), truncated: false };
    let count = subtable_count(&tables);
    let mut index: u16 = 0;
    proof {
        assert(sample.codepoints@ =~= Set::<u32>::empty());
    }
    while index < count
        invariant
            font@ == b,
            tables@ == b,
            count == ttf_cmap_len(b),
            index <= count,
            sample_wf(sample.codepoints@, sample.truncated, limit as nat),
            sample_of(b, (sample.codepoints@, sample.truncated), unicode_codepoints_from(b, index as int), limit as nat)
                == total,
        ensures
            sample_wf(sample.codepoints@, sample.truncated, limit as nat),
            (sample.codepoints@, sample.truncated) == total,
        decreases count - index,
    {
        let subtable = match subtable_at(&tables, index) {
            Some(subtable) => subtable,
            None => {
                proof {
                    assert(unicode_codepoints_from(b, index as int) =~= Seq::<u32>::empty());
                    assert(sample_of(b, (sample.codepoints@, sample.truncated), Seq::<u32>::empty(), limit as nat)
                        == (sample.codepoints@, sample.truncated));
                }
                break;
            },
        };
        let ghost i = index as int;
        let ghost rest = unicode_codepoints_from(b, i + 1);
        proof {
            assert(subtable@ == (b, index));
        }
        index = index + 1;
        if !subtable_is_unicode(&subtable) {
            proof {
                assert(unicode_codepoints_from(b, i) =~= rest);
            }
            continue;
        }
        let codepoints = subtable_codepoints(&subtable);
        let ghost st0 = (sample.codepoints@, sample.truncated);
        proof {
            assert(unicode_codepoints_from(b, i) =~= codepoints@ + rest);
            lemma_sample_of_concat(b, st0, codepoints@, rest, limit as nat);
            assert(codepoints@.take(0) =~= Seq::<u32>::empty());
        }
        let mut k: usize = 0;
        while k < codepoints.len()
            invariant
                font@ == b,
                k <= codepoints@.len(),
                sample_wf(sample.codepoints@, sample.truncated, limit as nat),
                (sample.codepoints@, sample.truncated) == sample_of(b, st0, codepoints@.take(k as int), limit as nat),
            decreases codepoints.len() - k,
        {
            let cp = codepoints[k];
            let d = is_drawn(&font, cp);
            add_sample_codepoint(&mut sample, cp, d, limit);
            proof {
                let t = codepoints@.take(k + 1);
                assert(t.drop_last() =~= codepoints@.take(k as int));
                assert(t.last() == cp);
            }
            k = k + 1;
        }
        proof {
            assert(codepoints@.take(k as int) =~= codepoints@);
        }
        if sample.codepoints.len() >= limit && sample.truncated {
            proof {
                lemma_sample_of_full(b, (sample.codepoints@, sample.truncated), rest, limit as nat);
                assert(unicode_codepoints_from(b, count as int) =~= Seq::<u32>::empty());
            }
            index = count;
            break;
        }
    }
    let r = finish_font_sample(&sample);
    proof {
        let s = increasing_elems(sample.codepoints@);
        assert forall|i: int| 0 <= i < s.len() implies eligible(#[trigger] s[i]) by {
            assert(s.to_set().contains(s[i]));
        }
        lemma_scalar_chars_of_eligible(s);
        assert forall|i: int, j: int| 0 <= i < j < s.len() implies (scalar_chars(s)[i] as u32) < (scalar_chars(s)[j] as u32) by {
            assert(s[i] < s[j]);
            assert(eligible(s[i]) && eligible(s[j]));
        }
        assert forall|i: int| 0 <= i < s.len() implies ' ' < #[trigger] scalar_chars(s)[i] by {
            assert(eligible(s[i]));
        }
        s.unique_seq_to_set();
    }
    r
}

} // verus!
