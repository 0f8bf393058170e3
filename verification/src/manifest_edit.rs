//! Edits of the project manifest made from the TUI: per-source threshold,
//! invert and grid entries, and the animation definitions.  A per-source
//! table holds each source key at most once; the caller reads the manifest
//! before the edit and writes it back after.
use vstd::prelude::*;
use crate::model::{AnimationDef, BleedLevel, CompositionDef};
use crate::text::{decimal, push_decimal, push_str, str_equal, string_of};

verus! {

/// Entry `i` of the table is the one of `key`.
pub open spec fn has_key<V>(pairs: Seq<(String, V)>, key: Seq<char>, i: int) -> bool {
    0 <= i < pairs.len() && pairs[i].0@ == key
}

/// No key occurs twice.
pub open spec fn keys_unique<V>(pairs: Seq<(String, V)>) -> bool {
    forall|i: int, j: int|
        0 <= i < pairs.len() && 0 <= j < pairs.len() && i != j ==> #[trigger] pairs[i].0@ != #[trigger] pairs[j].0@
}

/// The value the table stores for `key`.
pub open spec fn entry_of<V>(pairs: Seq<(String, V)>, key: Seq<char>) -> Option<V> {
    if exists|i: int| has_key(pairs, key, i) {
        Some(pairs[choose|i: int| has_key(pairs, key, i)].1)
    } else {
        None
    }
}

proof fn lemma_entry_at<V>(pairs: Seq<(String, V)>, key: Seq<char>, i: int)
    requires
        keys_unique(pairs),
        has_key(pairs, key, i),
    ensures
        entry_of(pairs, key) == Some(pairs[i].1),
{
    let j = choose|j: int| has_key(pairs, key, j);
    assert(has_key(pairs, key, j));
    if j != i {
        assert(pairs[i].0@ != pairs[j].0@);
    }
}

proof fn lemma_entry_none<V>(pairs: Seq<(String, V)>, key: Seq<char>)
    requires
        forall|i: int| 0 <= i < pairs.len() ==> pairs[i].0@ != key,
    ensures
        entry_of(pairs, key) is None,
{
    if exists|i: int| has_key(pairs, key, i) {
        let i = choose|i: int| has_key(pairs, key, i);
        assert(pairs[i].0@ != key);
    }
}

fn key_index<V>(table: &Vec<(String, V)>, key: &str) -> (r: Option<usize>)
    ensures
        r matches Some(i) ==> has_key(table@, key@, i as int),
        r is None ==> forall|i: int| 0 <= i < table@.len() ==> table@[i].0@ != key@,
{
    let mut i: usize = 0;
    while i < table.len()
        invariant
            i <= table@.len(),
            forall|j: int| 0 <= j < i ==> table@[j].0@ != key@,
        decreases table@.len() - i,
    {
        if str_equal(table[i].0.as_str(), key) {
            return Some(i);
        }
        i = i + 1;
    }
    None
}

/// Stores `value` for `key` (`None` removes the entry); the other entries
/// keep their values.
pub fn set_table_entry<V: Copy>(table: &mut Vec<(String, V)>, key: &str, value: Option<V>)
    requires
        keys_unique(old(table)@),
    ensures
        keys_unique(final(table)@),
        forall|k: Seq<char>| #[trigger] entry_of(final(table)@, k) == if k == key@ {
            value
        } else {
            entry_of(old(table)@, k)
        },
{
    let ghost before = table@;
    match (key_index(table, key), value) {
        (Some(i), Some(v)) => {
            let name = table[i].0.clone();
            table.set(i, (name, v));
            proof {
                let after = table@;
                assert forall|a: int, b: int| 0 <= a < after.len() && 0 <= b < after.len() && a != b implies #[trigger] after[a].0@ != #[trigger] after[b].0@ by {
                    assert(before[a].0@ != before[b].0@);
                }
                assert forall|k: Seq<char>| #[trigger] entry_of(after, k) == if k == key@ {
                    value
                } else {
                    entry_of(before, k)
                } by {
                    if k == key@ {
                        lemma_entry_at(after, k, i as int);
                    } else if exists|j: int| has_key(before, k, j) {
                        let j = choose|j: int| has_key(before, k, j);
                        lemma_entry_at(before, k, j);
                        lemma_entry_at(after, k, j);
                    } else {
                        assert forall|j: int| 0 <= j < before.len() implies before[j].0@ != k by {
                            assert(!has_key(before, k, j));
                        }
                        lemma_entry_none(before, k);
                        assert forall|j: int| 0 <= j < after.len() implies after[j].0@ != k by {
                            if after[j].0@ == k {
                                assert(has_key(before, k, j));
                            }
                        }
                        lemma_entry_none(after, k);
                    }
                }
            }
        },
        (Some(i), None) => {
            table.remove(i);
            proof {
                let after = table@;
                assert(after =~= before.remove(i as int));
                assert forall|a: int| 0 <= a < after.len() implies after[a] == before[if a < i { a } else { a + 1 }] by {}
                assert forall|a: int, b: int| 0 <= a < after.len() && 0 <= b < after.len() && a != b implies #[trigger] after[a].0@ != #[trigger] after[b].0@ by {
                    let a2 = if a < i { a } else { a + 1 };
                    let b2 = if b < i { b } else { b + 1 };
                    assert(before[a2].0@ != before[b2].0@);
                }
                assert forall|k: Seq<char>| #[trigger] entry_of(after, k) == if k == key@ {
                    value
                } else {
                    entry_of(before, k)
                } by {
                    if k == key@ {
                        assert forall|j: int| 0 <= j < after.len() implies after[j].0@ != k by {
                            let j2 = if j < i { j } else { j + 1 };
                            assert(before[j2].0@ != before[i as int].0@);
                        }
                        lemma_entry_none(after, k);
                    } else if exists|j: int| has_key(before, k, j) {
                        let j = choose|j: int| has_key(before, k, j);
                        lemma_entry_at(before, k, j);
                        let j2 = if j < i { j } else { j - 1 };
                        assert(j != i);
                        assert(has_key(after, k, j2));
                        lemma_entry_at(after, k, j2);
                    } else {
                        assert forall|j: int| 0 <= j < before.len() implies before[j].0@ != k by {
                            assert(!has_key(before, k, j));
                        }
                        lemma_entry_none(before, k);
                        assert forall|j: int| 0 <= j < after.len() implies after[j].0@ != k by {
                            let j2 = if j < i { j } else { j + 1 };
                            assert(!has_key(before, k, j2));
                        }
                        lemma_entry_none(after, k);
                    }
                }
            }
        },
        (None, Some(v)) => {
            table.push((key.to_owned(), v));
            proof {
                let after = table@;
                let n = before.len() as int;
                assert forall|a: int, b: int| 0 <= a < after.len() && 0 <= b < after.len() && a != b implies #[trigger] after[a].0@ != #[trigger] after[b].0@ by {
                    if a < n && b < n {
                        assert(before[a].0@ != before[b].0@);
                    } else if a == n {
                        assert(before[b].0@ != key@);
                    } else {
                        assert(before[a].0@ != key@);
                    }
                }
                assert forall|k: Seq<char>| #[trigger] entry_of(after, k) == if k == key@ {
                    value
                } else {
                    entry_of(before, k)
                } by {
                    if k == key@ {
                        lemma_entry_at(after, k, n);
                    } else if exists|j: int| has_key(before, k, j) {
                        let j = choose|j: int| has_key(before, k, j);
                        lemma_entry_at(before, k, j);
                        lemma_entry_at(after, k, j);
                    } else {
                        assert forall|j: int| 0 <= j < before.len() implies before[j].0@ != k by {
                            assert(!has_key(before, k, j));
                        }
                        lemma_entry_none(before, k);
                        assert forall|j: int| 0 <= j < after.len() implies after[j].0@ != k by {
                            if j < n {
                                assert(!has_key(before, k, j));
                            }
                        }
                        lemma_entry_none(after, k);
                    }
                }
            }
        },
        (None, None) => {
            proof {
                lemma_entry_none(before, key@);
            }
        },
    }
}

/// Saves (or, with `None`, clears) the threshold of a source.
pub fn set_threshold_override(table: &mut Vec<(String, u8)>, source_key: &str, threshold: Option<u8>)
    requires
        keys_unique(old(table)@),
    ensures
        keys_unique(final(table)@),
        forall|k: Seq<char>| #[trigger] entry_of(final(table)@, k) == if k == source_key@ {
            threshold
        } else {
            entry_of(old(table)@, k)
        },
{
    set_table_entry(table, source_key, threshold);
}

/// Saves the invert flag of a source: only an inverted source has an entry.
pub fn set_invert_override(table: &mut Vec<(String, bool)>, source_key: &str, invert: bool)
    requires
        keys_unique(old(table)@),
    ensures
        keys_unique(final(table)@),
        forall|k: Seq<char>| #[trigger] entry_of(final(table)@, k) == if k == source_key@ {
            if invert {
                Some(true)
            } else {
                None
            }
        } else {
            entry_of(old(table)@, k)
        },
{
    set_table_entry(table, source_key, if invert { Some(true) } else { None });
}

/// Saves (or, with `None`, removes) the grid a source is split into.
pub fn set_composition_definition(table: &mut Vec<(String, CompositionDef)>, source_key: &str, composition: Option<CompositionDef>)
    requires
        keys_unique(old(table)@),
    ensures
        keys_unique(final(table)@),
        forall|k: Seq<char>| #[trigger] entry_of(final(table)@, k) == if k == source_key@ {
            composition
        } else {
            entry_of(old(table)@, k)
        },
{
    set_table_entry(table, source_key, composition);
}

// ---------------------------------------------------------------------------
// Animations
// ---------------------------------------------------------------------------
/// The animations not named `name`, in order.
pub open spec fn without_named(s: Seq<AnimationDef>, name: Seq<char>) -> Seq<AnimationDef>
    decreases s.len(),
{
    if s.len() == 0 {
        s
    } else if s.last().name@ == name {
        without_named(s.drop_last(), name)
    } else {
        without_named(s.drop_last(), name).push(s.last())
    }
}

pub open spec fn has_named(s: Seq<AnimationDef>, name: Seq<char>) -> bool {
    exists|i: int| 0 <= i < s.len() && s[i].name@ == name
}

/// Removes every animation named `animation_name`, and says whether there
/// was one.
pub fn remove_animation_definition(animations: &mut Vec<AnimationDef>, animation_name: &str) -> (removed: bool)
    ensures
        final(animations)@ == without_named(old(animations)@, animation_name@),
        removed == has_named(old(animations)@, animation_name@),
{
    let ghost all = animations@;
    let ghost name = animation_name@;
    let ghost mut j: int = 0;
    let mut i: usize = 0;
    let mut removed = false;
    proof {
        assert(all.take(0) =~= Seq::<AnimationDef>::empty());
        assert(animations@ =~= without_named(all.take(0), name) + all.skip(0));
    }
    while i < animations.len()
        invariant
            name == animation_name@,
            0 <= j <= all.len(),
            i == without_named(all.take(j), name).len(),
            animations@ == without_named(all.take(j), name) + all.skip(j),
            removed == (exists|k: int| 0 <= k < j && all[k].name@ == name),
        decreases all.len() - j,
    {
        proof {
            assert(animations@[i as int] == all[j]);
            assert(all.take(j + 1).drop_last() =~= all.take(j));
            assert(all.take(j + 1).last() == all[j]);
        }
        if str_equal(animations[i].name.as_str(), animation_name) {
            animations.remove(i);
            removed = true;
            proof {
                assert(animations@ =~= without_named(all.take(j + 1), name) + all.skip(j + 1));
                j = j + 1;
            }
        } else {
            proof {
                assert(animations@ =~= without_named(all.take(j + 1), name) + all.skip(j + 1));
                assert forall|k: int| 0 <= k < j + 1 && all[k].name@ == name implies k < j by {}
                j = j + 1;
            }
            i = i + 1;
        }
    }
    proof {
        assert(all.skip(j).len() == 0);
        assert(j == all.len());
        assert(all.take(j) =~= all);
        assert(animations@ =~= without_named(all, name));
    }
    removed
}

/// The first animation named `name`.
pub open spec fn first_named(s: Seq<AnimationDef>, name: Seq<char>) -> int {
    choose|i: int| 0 <= i < s.len() && s[i].name@ == name && forall|k: int| 0 <= k < i ==> s[k].name@ != name
}

proof fn lemma_first_named(s: Seq<AnimationDef>, name: Seq<char>, i: int)
    requires
        0 <= i < s.len(),
        s[i].name@ == name,
        forall|k: int| 0 <= k < i ==> s[k].name@ != name,
    ensures
        first_named(s, name) == i,
        has_named(s, name),
{
    let w = first_named(s, name);
    assert(0 <= w < s.len() && s[w].name@ == name && forall|k: int| 0 <= k < w ==> s[k].name@ != name);
    if w < i {
        assert(s[w].name@ != name);
    } else if w > i {
        assert(s[i].name@ != name);
    }
}

/// `fps` brought into 1..=30.
pub open spec fn clamped_fps(fps: u8) -> u8 {
    if fps < 1 {
        1
    } else if fps > 30 {
        30
    } else {
        fps
    }
}

/// Sets the frame rate (brought into 1..=30) of the first animation named
/// `animation_name`, and says whether there is one.
pub fn set_animation_fps(animations: &mut Vec<AnimationDef>, animation_name: &str, fps: u8) -> (found: bool)
    ensures
        found == has_named(old(animations)@, animation_name@),
        !found ==> final(animations)@ == old(animations)@,
        found ==> {
            let i = first_named(old(animations)@, animation_name@);
            final(animations)@ == old(animations)@.update(i, AnimationDef { fps: clamped_fps(fps), ..old(animations)@[i] })
        },
{
    let ghost before = animations@;
    let mut i: usize = 0;
    while i < animations.len()
        invariant
            animations@ == before,
            before == old(animations)@,
            i <= before.len(),
            forall|k: int| 0 <= k < i ==> before[k].name@ != animation_name@,
        decreases before.len() - i,
    {
        if str_equal(animations[i].name.as_str(), animation_name) {
            let mut a = animations.remove(i);
            a.fps = if fps < 1 { 1 } else if fps > 30 { 30 } else { fps };
            animations.insert(i, a);
            proof {
                lemma_first_named(before, animation_name@, i as int);
                assert(animations@ =~= before.update(i as int, AnimationDef { fps: clamped_fps(fps), ..before[i as int] }));
            }
            return true;
        }
        i = i + 1;
    }
    false
}


/// The status line after setting the frame rate of animation `name` to
/// `fps`, which was found in the manifest or not.
pub open spec fn fps_status(name: Seq<char>, fps: u8, found: bool) -> Seq<char> {
    if found {
        "updated animation `"@ + name + "` fps -> "@ + decimal(fps as nat)
    } else {
        "animation not found: `"@ + name + "`"@
    }
}

fn fps_status_text(name: &str, fps: u8, found: bool) -> (r: String)
    ensures
        r@ == fps_status(name@, fps, found),
{
    let mut out: Vec<char> = Vec::new();
    if found {
        push_str(&mut out, "updated animation `");
        push_str(&mut out, name);
        push_str(&mut out, "` fps -> ");
        push_decimal(&mut out, fps as u64);
    } else {
        push_str(&mut out, "animation not found: `");
        push_str(&mut out, name);
        push_str(&mut out, "`");
    }
    string_of(&out)
}

/// Sets the frame rate of the selected animation (`selected`, an index
/// into the project's animations `config`) in the manifest's animations
/// and, when the manifest has it, in `config` too; returns the status
/// line.  The frame rate is brought into 1..=30.
pub fn set_selected_animation_fps(
    manifest: &mut Vec<AnimationDef>,
    config: &mut Vec<AnimationDef>,
    selected: Option<usize>,
    fps: u8,
) -> (status: String)
    ensures
        match selected {
            Some(i) if i < old(config)@.len() => {
                let name = old(config)@[i as int].name@;
                let found = has_named(old(manifest)@, name);
                &&& status@ == fps_status(name, fps, found)
                &&& !found ==> final(manifest)@ == old(manifest)@ && final(config)@ == old(config)@
                &&& found ==> {
                    let m = first_named(old(manifest)@, name);
                    &&& final(manifest)@ == old(manifest)@.update(m, AnimationDef { fps: clamped_fps(fps), ..old(manifest)@[m] })
                    &&& final(config)@ == old(config)@.update(i as int, AnimationDef { fps: clamped_fps(fps), ..old(config)@[i as int] })
                }
            },
            _ => status@ == "no animation selected"@ && final(manifest)@ == old(manifest)@ && final(config)@ == old(config)@,
        },
{
    let idx = match selected {
        Some(i) => i,
        None => {
            let mut out: Vec<char> = Vec::new();
            push_str(&mut out, "no animation selected");
            return string_of(&out);
        },
    };
    if idx >= config.len() {
        let mut out: Vec<char> = Vec::new();
        push_str(&mut out, "no animation selected");
        return string_of(&out);
    }
    let name = config[idx].name.clone();
    let found = set_animation_fps(manifest, name.as_str(), fps);
    if found {
        let mut a = config.remove(idx);
        a.fps = if fps < 1 { 1 } else if fps > 30 { 30 } else { fps };
        config.insert(idx, a);
        proof {
            assert(config@ =~= old(config)@.update(idx as int, AnimationDef { fps: clamped_fps(fps), ..old(config)@[idx as int] }));
        }
    }
    fps_status_text(name.as_str(), fps, found)
}


// ---------------------------------------------------------------------------
// Grids from the glyph list
// ---------------------------------------------------------------------------
/// The grid `c` on the glyph list gives a source: 2 x 2, weak horizontal
/// bleed, no vertical bleed.
pub open spec fn default_composition() -> CompositionDef {
    CompositionDef { rows: 2, cols: 2, horizontal_bleed: BleedLevel::Weak, vertical_bleed: BleedLevel::Off }
}

pub open spec fn compose_needs_project() -> Seq<char> {
    "create a project in Home or relaunch with --manifest before composing"@
}

fn status_text(lit: &str) -> (r: String)
    ensures
        r@ == lit@,
{
    let mut out: Vec<char> = Vec::new();
    push_str(&mut out, lit);
    string_of(&out)
}

fn status_around(head: &str, key: &str, tail: &str) -> (r: String)
    ensures
        r@ == head@ + key@ + tail@,
{
    let mut out: Vec<char> = Vec::new();
    push_str(&mut out, head);
    push_str(&mut out, key);
    push_str(&mut out, tail);
    string_of(&out)
}

fn status_after(head: &str, key: &str) -> (r: String)
    ensures
        r@ == head@ + key@,
{
    let mut out: Vec<char> = Vec::new();
    push_str(&mut out, head);
    push_str(&mut out, key);
    string_of(&out)
}

fn has_entry<V>(table: &Vec<(String, V)>, key: &str) -> (r: bool)
    requires
        keys_unique(table@),
    ensures
        r == (entry_of(table@, key@) is Some),
{
    match key_index(table, key) {
        Some(i) => {
            proof {
                lemma_entry_at(table@, key@, i as int);
            }
            true
        },
        None => {
            proof {
                lemma_entry_none(table@, key@);
            }
            false
        },
    }
}

/// Gives the selected source (`source`) the default 2 x 2 grid in the
/// manifest's grids, unless no project is open, nothing is selected or the
/// project (`config`) already has a grid for it.  Returns whether the grid
/// was saved, and the status line.
pub fn apply_default_composition(
    manifest: &mut Vec<(String, CompositionDef)>,
    config: &Vec<(String, CompositionDef)>,
    has_active_project: bool,
    source: Option<&str>,
) -> (r: (bool, String))
    requires
        keys_unique(old(manifest)@),
        keys_unique(config@),
    ensures
        keys_unique(final(manifest)@),
        !r.0 ==> final(manifest)@ == old(manifest)@,
        !has_active_project ==> !r.0 && r.1@ == compose_needs_project(),
        has_active_project && source is None ==> !r.0 && r.1@ == "no glyph selected"@,
        has_active_project ==> (source matches Some(k) ==> if entry_of(config@, k@) is Some {
            !r.0 && r.1@ == "composition already exists for "@ + k@ + "; press C to remove it first"@
        } else {
            &&& r.0
            &&& r.1@ == "created composition for "@ + k@ + ": 2x2 (edit [compositions] in petiglyph.toml for custom sizes)"@
            &&& forall|key: Seq<char>| #[trigger] entry_of(final(manifest)@, key) == if key == k@ {
                Some(default_composition())
            } else {
                entry_of(old(manifest)@, key)
            }
        }),
{
    if !has_active_project {
        return (false, status_text("create a project in Home or relaunch with --manifest before composing"));
    }
    let key = match source {
        Some(k) => k,
        None => {
            return (false, status_text("no glyph selected"));
        },
    };
    if has_entry(config, key) {
        return (false, status_around("composition already exists for ", key, "; press C to remove it first"));
    }
    let grid = CompositionDef { rows: 2, cols: 2, horizontal_bleed: BleedLevel::Weak, vertical_bleed: BleedLevel::Off };
    set_composition_definition(manifest, key, Some(grid));
    (true, status_around("created composition for ", key, ": 2x2 (edit [compositions] in petiglyph.toml for custom sizes)"))
}

/// Removes the grid of the selected source (`source`) from the manifest's
/// grids, unless no project is open, nothing is selected or the project
/// (`config`) has no grid for it.  Returns whether it was removed, and the
/// status line.
pub fn clear_composition(
    manifest: &mut Vec<(String, CompositionDef)>,
    config: &Vec<(String, CompositionDef)>,
    has_active_project: bool,
    source: Option<&str>,
) -> (r: (bool, String))
    requires
        keys_unique(old(manifest)@),
        keys_unique(config@),
    ensures
        keys_unique(final(manifest)@),
        !r.0 ==> final(manifest)@ == old(manifest)@,
        !has_active_project ==> !r.0 && r.1@ == compose_needs_project(),
        has_active_project && source is None ==> !r.0 && r.1@ == "no glyph selected"@,
        has_active_project ==> (source matches Some(k) ==> if entry_of(config@, k@) is None {
            !r.0 && r.1@ == "no composition configured for "@ + k@
        } else {
            &&& r.0
            &&& r.1@ == "removed composition for "@ + k@
            &&& forall|key: Seq<char>| #[trigger] entry_of(final(manifest)@, key) == if key == k@ {
                None
            } else {
                entry_of(old(manifest)@, key)
            }
        }),
{
    if !has_active_project {
        return (false, status_text("create a project in Home or relaunch with --manifest before composing"));
    }
    let key = match source {
        Some(k) => k,
        None => {
            return (false, status_text("no glyph selected"));
        },
    };
    if !has_entry(config, key) {
        return (false, status_after("no composition configured for ", key));
    }
    set_composition_definition(manifest, key, None);
    (true, status_after("removed composition for ", key))
}

} // verus!
