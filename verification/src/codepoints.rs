//! The glyph map of a built project (`glyph-map.json`): which codepoint each
//! source key was assigned, and how the text block of an animation frame is
//! recovered from it, including the unambiguous remapping of keys whose
//! directory part changed.
use vstd::prelude::*;
use crate::keys::{
    compose_key, compose_marker, codepoint_char, emitted_composition_cols, format_codepoint_char,
    format_compose_tile_key, parse_compose, parse_compose_tile_key,
};
use crate::model::{AnimationDef, AnimationType};
use crate::text::{
    chars_equal, chars_of, contains_chars, contains_seq, ends_with, ends_with_chars, push_all,
    push_str, string_of,
};

verus! {

/// The characters of each string.
pub open spec fn views(v: Seq<String>) -> Seq<Seq<char>> {
    Seq::new(v.len(), |i: int| v[i]@)
}

/// A map from source key to codepoint label, with at most one entry per key.
#[derive(Debug, Clone)]
pub struct SourceCodepoints {
    pub entries: Vec<(String, String)>,
}

pub open spec fn entry_keys(e: Seq<(String, String)>) -> Seq<Seq<char>> {
    Seq::new(e.len(), |i: int| e[i].0@)
}

/// The label stored for `key`, if any.
pub open spec fn lookup(e: Seq<(String, String)>, key: Seq<char>) -> Option<Seq<char>>
    decreases e.len(),
{
    if e.len() == 0 {
        None
    } else if e.last().0@ == key {
        Some(e.last().1@)
    } else {
        lookup(e.drop_last(), key)
    }
}

impl SourceCodepoints {
    pub open spec fn keys(&self) -> Seq<Seq<char>> {
        entry_keys(self.entries@)
    }

    /// No key is stored twice.
    pub open spec fn wf(&self) -> bool {
        forall|i: int, j: int|
            0 <= i < j < self.entries@.len() ==> self.entries@[i].0@ != self.entries@[j].0@
    }

    pub open spec fn get(&self, key: Seq<char>) -> Option<Seq<char>> {
        lookup(self.entries@, key)
    }

    pub fn new() -> (r: Self)
        ensures
            r.wf(),
            r.entries@.len() == 0,
    {
        SourceCodepoints { entries: Vec::new() }
    }

    /// Stores `value` under `key`, replacing an earlier value.
    pub fn insert(&mut self, key: String, value: String)
        requires
            old(self).wf(),
        ensures
            final(self).wf(),
            final(self).get(key@) == Some(value@),
            forall|k: Seq<char>| k != key@ ==> final(self).get(k) == old(self).get(k),
            forall|k: Seq<char>|
                final(self).keys().contains(k) <==> (old(self).keys().contains(k) || k == key@),
    {
        let kc = chars_of(key.as_str());
        let mut i: usize = 0;
        while i < self.entries.len()
            invariant
                self.wf(),
                *self == *old(self),
                kc@ == key@,
                i <= self.entries.len(),
                forall|j: int| 0 <= j < i ==> self.entries@[j].0@ != key@,
            decreases self.entries.len() - i,
        {
            let ek = chars_of(self.entries[i].0.as_str());
            if chars_equal(&ek, &kc) {
                let ghost before = self.entries@;
                self.entries.set(i, (key, value));
                proof {
                    assert forall|k: Seq<char>| k != key@ implies lookup(self.entries@, k) == lookup(
                        before,
                        k,
                    ) by {
                        lemma_lookup_update(before, i as int, key, value, k);
                    }
                    lemma_lookup_found(self.entries@, i as int);
                    assert forall|k: Seq<char>|
                        entry_keys(self.entries@).contains(k) <==> (entry_keys(before).contains(k)
                            || k == key@) by {
                        if entry_keys(before).contains(k) {
                            let j = choose|j: int|
                                0 <= j < entry_keys(before).len() && entry_keys(before)[j] == k;
                            if j == i {
                                assert(entry_keys(self.entries@)[j] == k);
                            } else {
                                assert(entry_keys(self.entries@)[j] == k);
                            }
                        }
                        if k == key@ {
                            assert(entry_keys(self.entries@)[i as int] == k);
                        }
                        if entry_keys(self.entries@).contains(k) {
                            let j = choose|j: int|
                                0 <= j < entry_keys(self.entries@).len() && entry_keys(
                                    self.entries@,
                                )[j] == k;
                            if j != i {
                                assert(entry_keys(before)[j] == k);
                            }
                        }
                    }
                }
                return;
            }
            i = i + 1;
        }
        let ghost before = self.entries@;
        self.entries.push((key, value));
        proof {
            assert(self.entries@.drop_last() =~= before);
            assert forall|k: Seq<char>|
                entry_keys(self.entries@).contains(k) <==> (entry_keys(before).contains(k) || k
                    == key@) by {
                if entry_keys(before).contains(k) {
                    let j = choose|j: int|
                        0 <= j < entry_keys(before).len() && entry_keys(before)[j] == k;
                    assert(entry_keys(self.entries@)[j] == k);
                }
                if k == key@ {
                    assert(entry_keys(self.entries@)[before.len() as int] == k);
                }
                if entry_keys(self.entries@).contains(k) {
                    let j = choose|j: int|
                        0 <= j < entry_keys(self.entries@).len() && entry_keys(self.entries@)[j]
                            == k;
                    if j < before.len() {
                        assert(entry_keys(before)[j] == k);
                    }
                }
            }
        }
    }

    /// The map holding each `(key, value)` pair, a later pair replacing an
    /// earlier one with the same key.
    pub fn from_pairs(pairs: Vec<(String, String)>) -> (r: Self)
        ensures
            r.wf(),
            forall|k: Seq<char>| #[trigger] r.get(k) == lookup(pairs@, k),
    {
        let mut m = SourceCodepoints::new();
        let mut i: usize = 0;
        while i < pairs.len()
            invariant
                m.wf(),
                i <= pairs.len(),
                forall|k: Seq<char>| #[trigger] m.get(k) == lookup(pairs@.take(i as int), k),
            decreases pairs.len() - i,
        {
            let k = pairs[i].0.clone();
            let v = pairs[i].1.clone();
            proof {
                let t = pairs@.take(i + 1);
                assert(t.drop_last() =~= pairs@.take(i as int));
                assert(t.last() == pairs@[i as int]);
            }
            m.insert(k, v);
            i = i + 1;
        }
        proof {
            assert(pairs@.take(i as int) =~= pairs@);
        }
        m
    }

    /// The label stored for `key`.
    pub fn get_label(&self, key: &str) -> (r: Option<String>)
        ensures
            r matches Some(v) ==> self.get(key@) == Some(v@),
            r is None ==> self.get(key@) is None,
    {
        let kc = chars_of(key);
        let mut i = self.entries.len();
        proof {
            assert(self.entries@.take(i as int) =~= self.entries@);
        }
        while i > 0
            invariant
                i <= self.entries.len(),
                kc@ == key@,
                lookup(self.entries@, key@) == lookup(self.entries@.take(i as int), key@),
            decreases i,
        {
            let ek = chars_of(self.entries[i - 1].0.as_str());
            proof {
                assert(self.entries@.take(i as int).drop_last() =~= self.entries@.take(i - 1));
            }
            if chars_equal(&ek, &kc) {
                return Some(self.entries[i - 1].1.clone());
            }
            i = i - 1;
        }
        None
    }
}

proof fn lemma_lookup_update(
    e: Seq<(String, String)>,
    i: int,
    key: String,
    value: String,
    k: Seq<char>,
)
    requires
        0 <= i < e.len(),
        e[i].0@ == key@,
        k != key@,
    ensures
        lookup(e.update(i, (key, value)), k) == lookup(e, k),
    decreases e.len(),
{
    if i < e.len() - 1 {
        lemma_lookup_update(e.drop_last(), i, key, value, k);
        assert(e.update(i, (key, value)).drop_last() =~= e.drop_last().update(i, (key, value)));
    } else {
        assert(e.update(i, (key, value)).drop_last() =~= e.drop_last());
    }
}

proof fn lemma_lookup_found(e: Seq<(String, String)>, i: int)
    requires
        0 <= i < e.len(),
        forall|a: int, b: int| 0 <= a < b < e.len() ==> e[a].0@ != e[b].0@,
    ensures
        lookup(e, e[i].0@) == Some(e[i].1@),
    decreases e.len(),
{
    if i < e.len() - 1 {
        lemma_lookup_found(e.drop_last(), i);
    }
}

// ---------------------------------------------------------------------------
// Remapping keys whose directory changed
// ---------------------------------------------------------------------------
/// `a` and `b` name the same source, one possibly under a subdirectory.
pub open spec fn same_source(a: Seq<char>, b: Seq<char>) -> bool {
    a == b || ends_with(a, seq!['/'] + b) || ends_with(b, seq!['/'] + a)
}

pub open spec fn standard_candidate(candidate: Seq<char>, key: Seq<char>) -> bool {
    !contains_seq(candidate, compose_marker()) && same_source(candidate, key)
}

/// The existing keys a standard key may have been renamed from.
pub open spec fn standard_matches(keys: Seq<Seq<char>>, key: Seq<char>) -> Seq<Seq<char>>
    decreases keys.len(),
{
    if keys.len() == 0 {
        seq![]
    } else if standard_candidate(keys.last(), key) {
        standard_matches(keys.drop_last(), key).push(keys.last())
    } else {
        standard_matches(keys.drop_last(), key)
    }
}

/// The single existing key that a standard source key matches, if exactly one does.
pub open spec fn remap_standard(keys: Seq<Seq<char>>, key: Seq<char>) -> Option<Seq<char>> {
    if contains_seq(key, compose_marker()) {
        None
    } else if standard_matches(keys, key).len() == 1 {
        Some(standard_matches(keys, key)[0])
    } else {
        None
    }
}

pub open spec fn compose_candidate(candidate: Seq<char>, key: Seq<char>) -> bool {
    match (parse_compose(candidate), parse_compose(key)) {
        (Some((cp, cr, cc, crow, ccol)), Some((p, r, c, row, col))) => same_source(cp, p) && cr == r
            && cc == c && crow == row && ccol == col,
        _ => false,
    }
}

pub open spec fn compose_matches(keys: Seq<Seq<char>>, key: Seq<char>) -> Seq<Seq<char>>
    decreases keys.len(),
{
    if keys.len() == 0 {
        seq![]
    } else if compose_candidate(keys.last(), key) {
        compose_matches(keys.drop_last(), key).push(keys.last())
    } else {
        compose_matches(keys.drop_last(), key)
    }
}

/// The single existing tile key with the same grid position whose parent
/// matches the parent of `key`, if exactly one does.
pub open spec fn remap_compose(keys: Seq<Seq<char>>, key: Seq<char>) -> Option<Seq<char>> {
    if parse_compose(key) is None {
        None
    } else if compose_matches(keys, key).len() == 1 {
        Some(compose_matches(keys, key)[0])
    } else {
        None
    }
}

#[verifier::spinoff_prover]
#[verifier::rlimit(100)]
proof fn lemma_compose_matches(keys: Seq<Seq<char>>, key: Seq<char>)
    ensures
        forall|x: Seq<char>| #[trigger] compose_matches(keys, key).contains(x) ==> keys.contains(x) && compose_candidate(x, key),
        (exists|i: int| 0 <= i < keys.len() && #[trigger] compose_candidate(keys[i], key)) ==> compose_matches(keys, key).len() >= 1,
        (exists|i: int, j: int|
            0 <= i < j < keys.len() && #[trigger] compose_candidate(keys[i], key) && #[trigger] compose_candidate(keys[j], key))
            ==> compose_matches(keys, key).len() >= 2,
        compose_matches(keys, key).len() >= 2 ==> exists|i: int, j: int|
            0 <= i < j < keys.len() && #[trigger] compose_candidate(keys[i], key) && #[trigger] compose_candidate(keys[j], key),
    decreases keys.len(),
{
    if keys.len() > 0 {
        let init = keys.drop_last();
        lemma_compose_matches(init, key);
        let m = compose_matches(keys, key);
        let pm = compose_matches(init, key);
        assert forall|x: Seq<char>| #[trigger] m.contains(x) implies keys.contains(x) && compose_candidate(x, key) by {
            if pm.contains(x) {
                let k = choose|k: int| 0 <= k < init.len() && init[k] == x;
                assert(keys[k] == x);
            } else {
                assert(x == keys.last());
                assert(keys[keys.len() - 1] == x);
            }
        }
        if exists|i: int| 0 <= i < keys.len() && #[trigger] compose_candidate(keys[i], key) {
            let i = choose|i: int| 0 <= i < keys.len() && #[trigger] compose_candidate(keys[i], key);
            if i < init.len() {
                assert(compose_candidate(init[i], key));
            }
        }
        if exists|i: int, j: int|
            0 <= i < j < keys.len() && #[trigger] compose_candidate(keys[i], key) && #[trigger] compose_candidate(keys[j], key) {
            let (i, j) = choose|i: int, j: int|
                0 <= i < j < keys.len() && #[trigger] compose_candidate(keys[i], key) && #[trigger] compose_candidate(keys[j], key);
            assert(compose_candidate(init[i], key));
            if j < init.len() {
                assert(compose_candidate(init[j], key));
            }
        }
        if m.len() >= 2 {
            if compose_candidate(keys.last(), key) {
                assert(pm.contains(pm[0]));
                let x = pm[0];
                let k = choose|k: int| 0 <= k < init.len() && init[k] == x;
                assert(keys[k] == x);
                assert(compose_candidate(keys[k], key) && compose_candidate(keys[keys.len() - 1], key));
            } else {
                let (i, j) = choose|i: int, j: int|
                    0 <= i < j < init.len() && #[trigger] compose_candidate(init[i], key) && #[trigger] compose_candidate(init[j], key);
                assert(keys[i] == init[i] && keys[j] == init[j]);
            }
        }
    }
}

/// A tile key is remapped only onto an existing key that matches it, and
/// only when no other existing key matches it; a key that is no tile key
/// is never remapped.
pub proof fn lemma_remap_compose_unique(keys: Seq<Seq<char>>, key: Seq<char>)
    ensures
        parse_compose(key) is None ==> remap_compose(keys, key) is None,
        remap_compose(keys, key) matches Some(k) ==> {
            &&& keys.contains(k)
            &&& compose_candidate(k, key)
            &&& forall|i: int, j: int|
                0 <= i < keys.len() && 0 <= j < keys.len() && #[trigger] compose_candidate(keys[i], key)
                    && #[trigger] compose_candidate(keys[j], key) ==> i == j
        },
        parse_compose(key) is Some && remap_compose(keys, key) is None ==> (forall|i: int|
            0 <= i < keys.len() ==> !#[trigger] compose_candidate(keys[i], key)) || exists|i: int, j: int|
            0 <= i < j < keys.len() && #[trigger] compose_candidate(keys[i], key) && #[trigger] compose_candidate(keys[j], key),
{
    lemma_compose_matches(keys, key);
    let m = compose_matches(keys, key);
    if m.len() == 1 {
        assert(m.contains(m[0]));
        assert forall|i: int, j: int|
            0 <= i < keys.len() && 0 <= j < keys.len() && #[trigger] compose_candidate(keys[i], key)
                && #[trigger] compose_candidate(keys[j], key) implies i == j by {
            if i < j {
                assert(m.len() >= 2);
            } else if j < i {
                assert(m.len() >= 2);
            }
        }
    }
}

/// Whether an existing key is a tile of the same grid size and position as
/// `key`, over a source that matches `key`'s source.
pub open spec fn tile_of(key: Seq<char>) -> spec_fn(Seq<char>) -> bool {
    |candidate: Seq<char>| compose_candidate(candidate, key)
}

proof fn lemma_compose_matches_filter(keys: Seq<Seq<char>>, key: Seq<char>)
    ensures
        compose_matches(keys, key) == keys.filter(tile_of(key)),
    decreases keys.len(),
{
    reveal(Seq::filter);
    if keys.len() > 0 {
        lemma_compose_matches_filter(keys.drop_last(), key);
    }
}

/// A tile key is remapped exactly when one and only one of the existing
/// keys, taken in order, is a tile of the same grid size and position over
/// a matching source (the same path, or one path ending in `/` and the
/// other); it is remapped onto that key.  A key that is no tile key, or
/// that matches none or several, is not remapped.
pub proof fn lemma_remap_compose_law(keys: Seq<Seq<char>>, key: Seq<char>)
    ensures
        remap_compose(keys, key) == (if parse_compose(key) is Some && keys.filter(tile_of(key)).len() == 1 {
            Some(keys.filter(tile_of(key))[0])
        } else {
            None
        }),
{
    lemma_compose_matches_filter(keys, key);
}

fn same_source_chars(a: &Vec<char>, b: &Vec<char>) -> (r: bool)
    ensures
        r == same_source(a@, b@),
{
    if chars_equal(a, b) {
        return true;
    }
    let mut sb: Vec<char> = Vec::new();
    sb.push('/');
    push_all(&mut sb, b);
    let mut sa: Vec<char> = Vec::new();
    sa.push('/');
    push_all(&mut sa, a);
    proof {
        assert(sb@ =~= seq!['/'] + b@);
        assert(sa@ =~= seq!['/'] + a@);
    }
    ends_with_chars(a, &sb) || ends_with_chars(b, &sa)
}

fn has_compose_marker(s: &Vec<char>) -> (r: bool)
    ensures
        r == contains_seq(s@, compose_marker()),
{
    let m = chars_of("#compose:");
    proof {
        reveal_strlit("#compose:");
        assert(m@ =~= compose_marker());
    }
    contains_chars(s, &m)
}

/// The single existing key (of `existing_keys`) that `source_key` is a
/// renamed form of: equal, or equal up to a leading directory, and not a tile.
pub fn remap_standard_source_key_unambiguous(existing_keys: &Vec<String>, source_key: &str) -> (r:
    Option<String>)
    ensures
        r matches Some(k) ==> remap_standard(views(existing_keys@), source_key@) == Some(k@),
        r is None ==> remap_standard(views(existing_keys@), source_key@) is None,
{
    let key = chars_of(source_key);
    if has_compose_marker(&key) {
        return None;
    }
    let ghost keys = views(existing_keys@);
    let mut found: Option<String> = None;
    let mut count: usize = 0;
    let mut i: usize = 0;
    while i < existing_keys.len()
        invariant
            i <= existing_keys.len(),
            keys == views(existing_keys@),
            key@ == source_key@,
            count as nat == standard_matches(keys.take(i as int), key@).len(),
            count <= i,
            count >= 1 ==> (found matches Some(f) && f@ == standard_matches(
                keys.take(i as int),
                key@,
            )[0]),
        decreases existing_keys.len() - i,
    {
        let candidate = chars_of(existing_keys[i].as_str());
        proof {
            assert(keys.take(i + 1).drop_last() =~= keys.take(i as int));
            assert(keys.take(i + 1).last() == candidate@);
        }
        if !has_compose_marker(&candidate) && same_source_chars(&candidate, &key) {
            if count == 0 {
                found = Some(existing_keys[i].clone());
            }
            proof {
                let m = standard_matches(keys.take(i as int), key@);
                assert(standard_matches(keys.take(i + 1), key@) == m.push(candidate@));
                if count >= 1 {
                    assert(m.push(candidate@)[0] == m[0]);
                }
            }
            count = count + 1;
        }
        i = i + 1;
    }
    proof {
        assert(keys.take(existing_keys.len() as int) =~= keys);
    }
    if count == 1 {
        found
    } else {
        None
    }
}

fn compose_candidate_chars(candidate: &str, key: &str) -> (r: bool)
    ensures
        r == compose_candidate(candidate@, key@),
{
    match (parse_compose_tile_key(candidate), parse_compose_tile_key(key)) {
        (Some((cp, cr, cc, crow, ccol)), Some((p, r, c, row, col))) => {
            let a = chars_of(cp.as_str());
            let b = chars_of(p.as_str());
            same_source_chars(&a, &b) && cr == r && cc == c && crow == row && ccol == col
        },
        _ => false,
    }
}

/// The single existing tile key (of `existing_keys`) with the position of
/// `source_key` whose parent names the same source.
pub fn remap_compose_source_key_unambiguous(existing_keys: &Vec<String>, source_key: &str) -> (r:
    Option<String>)
    ensures
        r matches Some(k) ==> remap_compose(views(existing_keys@), source_key@) == Some(k@),
        r is None ==> remap_compose(views(existing_keys@), source_key@) is None,
        r matches Some(k) ==> parse_compose(source_key@) is Some && views(existing_keys@).filter(tile_of(source_key@)).len()
            == 1 && k@ == views(existing_keys@).filter(tile_of(source_key@))[0],
        r is None ==> parse_compose(source_key@) is None || views(existing_keys@).filter(tile_of(source_key@)).len() != 1,
{
    proof {
        lemma_remap_compose_law(views(existing_keys@), source_key@);
    }
    if parse_compose_tile_key(source_key).is_none() {
        return None;
    }
    let ghost keys = views(existing_keys@);
    let mut found: Option<String> = None;
    let mut count: usize = 0;
    let mut i: usize = 0;
    while i < existing_keys.len()
        invariant
            i <= existing_keys.len(),
            keys == views(existing_keys@),
            count as nat == compose_matches(keys.take(i as int), source_key@).len(),
            count <= i,
            count >= 1 ==> (found matches Some(f) && f@ == compose_matches(
                keys.take(i as int),
                source_key@,
            )[0]),
        decreases existing_keys.len() - i,
    {
        proof {
            assert(keys.take(i + 1).drop_last() =~= keys.take(i as int));
            assert(keys.take(i + 1).last() == existing_keys@[i as int]@);
        }
        if compose_candidate_chars(existing_keys[i].as_str(), source_key) {
            if count == 0 {
                found = Some(existing_keys[i].clone());
            }
            proof {
                let m = compose_matches(keys.take(i as int), source_key@);
                assert(compose_matches(keys.take(i + 1), source_key@) == m.push(
                    existing_keys@[i as int]@,
                ));
                if count >= 1 {
                    assert(m.push(existing_keys@[i as int]@)[0] == m[0]);
                }
            }
            count = count + 1;
        }
        i = i + 1;
    }
    proof {
        assert(keys.take(existing_keys.len() as int) =~= keys);
    }
    if count == 1 {
        found
    } else {
        None
    }
}

// ---------------------------------------------------------------------------
// Frame blocks
// ---------------------------------------------------------------------------
/// The label a source key resolves to: its own entry, else the entry of the
/// unambiguous tile remapping, else that of the unambiguous standard remapping.
pub open spec fn resolved_label(m: SourceCodepoints, key: Seq<char>) -> Option<Seq<char>> {
    let by_compose = match remap_compose(m.keys(), key) {
        Some(k) => m.get(k),
        None => None,
    };
    let by_standard = match remap_standard(m.keys(), key) {
        Some(k) => m.get(k),
        None => None,
    };
    if by_compose is Some {
        by_compose
    } else {
        by_standard
    }
}

/// The one-character text block of a source key.
pub open spec fn source_block(m: SourceCodepoints, key: Seq<char>) -> Option<Seq<char>> {
    let label = match m.get(key) {
        Some(l) => Some(l),
        None => resolved_label(m, key),
    };
    match label {
        Some(l) => match codepoint_char(l) {
            Some(c) => Some(seq![c]),
            None => None,
        },
        None => None,
    }
}

fn keys_of(m: &SourceCodepoints) -> (r: Vec<String>)
    ensures
        views(r@) == m.keys(),
{
    let mut r: Vec<String> = Vec::new();
    let mut i: usize = 0;
    while i < m.entries.len()
        invariant
            i <= m.entries.len(),
            r@.len() == i,
            forall|j: int| 0 <= j < i ==> r@[j]@ == m.entries@[j].0@,
        decreases m.entries.len() - i,
    {
        r.push(m.entries[i].0.clone());
        i = i + 1;
    }
    proof {
        assert(views(r@) =~= m.keys());
    }
    r
}

/// The text block (one character) that shows the glyph of `source_key`.
pub fn installed_animation_source_block(by_source: &SourceCodepoints, source_key: &str) -> (r:
    Option<String>)
    ensures
        r matches Some(b) ==> source_block(*by_source, source_key@) == Some(b@),
        r is None ==> source_block(*by_source, source_key@) is None,
{
    let label = match by_source.get_label(source_key) {
        Some(l) => Some(l),
        None => {
            let keys = keys_of(by_source);
            let by_compose = match remap_compose_source_key_unambiguous(&keys, source_key) {
                Some(k) => by_source.get_label(k.as_str()),
                None => None,
            };
            if by_compose.is_some() {
                by_compose
            } else {
                match remap_standard_source_key_unambiguous(&keys, source_key) {
                    Some(k) => by_source.get_label(k.as_str()),
                    None => None,
                }
            }
        },
    };
    match label {
        Some(l) => match format_codepoint_char(l.as_str()) {
            Some(c) => {
                let mut v: Vec<char> = Vec::new();
                v.push(c);
                proof {
                    assert(v@ =~= seq![c]);
                }
                Some(string_of(&v))
            },
            None => None,
        },
        None => None,
    }
}

/// `lines.join("\n")`.
pub open spec fn join_lines(lines: Seq<Seq<char>>) -> Seq<char>
    decreases lines.len(),
{
    if lines.len() == 0 {
        seq![]
    } else if lines.len() == 1 {
        lines[0]
    } else {
        join_lines(lines.drop_last()) + seq!['\n'] + lines.last()
    }
}

/// The cell of a grid frame: the first character of the tile's block, or a space.
pub open spec fn grid_cell(m: SourceCodepoints, frame: Seq<char>, rows: nat, cols: nat, row: nat, col: nat) -> char {
    match source_block(m, compose_key(frame, rows, cols, row, col)) {
        Some(b) => if b.len() > 0 {
            b[0]
        } else {
            ' '
        },
        None => ' ',
    }
}

pub open spec fn grid_row(m: SourceCodepoints, frame: Seq<char>, rows: nat, cols: nat, row: nat) -> Seq<char> {
    Seq::new(cols, |c: int| grid_cell(m, frame, rows, cols, row, c as nat))
}

/// The text block of one grid frame: one line per tile row.
pub open spec fn grid_frame_block(m: SourceCodepoints, frame: Seq<char>, rows: nat, cols: nat) -> Seq<char> {
    join_lines(Seq::new(rows, |r: int| grid_row(m, frame, rows, cols, r as nat)))
}

/// `[missing:<frame>]`.
pub open spec fn missing_block(frame: Seq<char>) -> Seq<char> {
    seq!['[', 'm', 'i', 's', 's', 'i', 'n', 'g', ':'] + frame + seq![']']
}

/// The text block of each frame of an animation.
pub open spec fn frame_block(m: SourceCodepoints, a: AnimationDef, frame: Seq<char>) -> Seq<char> {
    match a.animation_type {
        AnimationType::Standard => match source_block(m, frame) {
            Some(b) => b,
            None => missing_block(frame),
        },
        AnimationType::Grid => {
            let rows = match a.rows {
                Some(r) => r,
                None => 1,
            };
            let logical = match a.cols {
                Some(c) => c,
                None => 1,
            };
            let cols = if logical * 2 <= usize::MAX {
                logical * 2
            } else {
                logical as int
            };
            grid_frame_block(m, frame, rows as nat, cols as nat)
        },
    }
}

fn grid_row_chars(by_source: &SourceCodepoints, frame: &str, rows: usize, cols: usize, row: usize) -> (r: Vec<char>)
    ensures
        r@ == grid_row(*by_source, frame@, rows as nat, cols as nat, row as nat),
{
    let mut out: Vec<char> = Vec::new();
    let mut col: usize = 0;
    while col < cols
        invariant
            col <= cols,
            out@.len() == col,
            forall|j: int|
                0 <= j < col ==> out@[j] == grid_cell(
                    *by_source,
                    frame@,
                    rows as nat,
                    cols as nat,
                    row as nat,
                    j as nat,
                ),
        decreases cols - col,
    {
        let key = format_compose_tile_key(frame, rows, cols, row, col);
        let c = match installed_animation_source_block(by_source, key.as_str()) {
            Some(b) => {
                let bc = chars_of(b.as_str());
                if bc.len() > 0 {
                    bc[0]
                } else {
                    ' '
                }
            },
            None => ' ',
        };
        out.push(c);
        col = col + 1;
    }
    proof {
        assert(out@ =~= grid_row(*by_source, frame@, rows as nat, cols as nat, row as nat));
    }
    out
}

fn grid_block_chars(by_source: &SourceCodepoints, frame: &str, rows: usize, cols: usize) -> (r: Vec<char>)
    ensures
        r@ == grid_frame_block(*by_source, frame@, rows as nat, cols as nat),
{
    let ghost lines = Seq::new(rows as nat, |r: int| grid_row(*by_source, frame@, rows as nat, cols as nat, r as nat));
    let mut out: Vec<char> = Vec::new();
    let mut row: usize = 0;
    while row < rows
        invariant
            row <= rows,
            lines == Seq::new(rows as nat, |r: int| grid_row(*by_source, frame@, rows as nat, cols as nat, r as nat)),
            out@ == join_lines(lines.take(row as int)),
        decreases rows - row,
    {
        let line = grid_row_chars(by_source, frame, rows, cols, row);
        proof {
            assert(lines.take(row + 1).drop_last() =~= lines.take(row as int));
        }
        if row > 0 {
            out.push('\n');
        } else {
            proof {
                assert(out@ =~= seq![]);
            }
        }
        push_all(&mut out, &line);
        proof {
            assert(lines.take(row + 1).last() == line@);
            if row == 0 {
                assert(out@ =~= lines.take(1)[0]);
            }
        }
        row = row + 1;
    }
    proof {
        assert(lines.take(rows as int) =~= lines);
    }
    out
}

/// The text block of every frame of `animation`: the frame's glyph, or for a
/// grid animation one line per tile row with one character per emitted column.
pub fn installed_animation_blocks_for_definition(animation: &AnimationDef, by_source: &SourceCodepoints) -> (r: Vec<String>)
    ensures
        r@.len() == animation.frames@.len(),
        forall|i: int|
            0 <= i < r@.len() ==> #[trigger] r@[i]@ == frame_block(
                *by_source,
                *animation,
                animation.frames@[i]@,
            ),
{
    let mut out: Vec<String> = Vec::new();
    let mut i: usize = 0;
    while i < animation.frames.len()
        invariant
            i <= animation.frames.len(),
            out@.len() == i,
            forall|j: int|
                0 <= j < i ==> #[trigger] out@[j]@ == frame_block(
                    *by_source,
                    *animation,
                    animation.frames@[j]@,
                ),
        decreases animation.frames.len() - i,
    {
        let frame = animation.frames[i].as_str();
        let block = match animation.animation_type {
            AnimationType::Standard => match installed_animation_source_block(by_source, frame) {
                Some(b) => b,
                None => {
                    let mut v: Vec<char> = Vec::new();
                    push_str(&mut v, "[missing:");
                    push_str(&mut v, frame);
                    v.push(']');
                    proof {
                        reveal_strlit("[missing:");
                        assert(v@ =~= missing_block(frame@));
                    }
                    string_of(&v)
                },
            },
            AnimationType::Grid => {
                let rows = match animation.rows {
                    Some(r) => r,
                    None => 1,
                };
                let logical = match animation.cols {
                    Some(c) => c,
                    None => 1,
                };
                let cols = emitted_composition_cols(logical);
                let v = grid_block_chars(by_source, frame, rows, cols);
                string_of(&v)
            },
        };
        out.push(block);
        i = i + 1;
    }
    out
}

} // verus!
