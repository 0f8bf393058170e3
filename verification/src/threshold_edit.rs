//! Setting the threshold of the selected sources from the Glyphs view: the
//! glyphs of those sources work at the new threshold at once, and the
//! project's table of overrides (saved to the manifest by the caller)
//! remembers it unless it is the project's own threshold.
use vstd::prelude::*;
use crate::codepoints::views;
use crate::manifest_edit::{entry_of, keys_unique, set_table_entry};
use crate::model::{HomeCreationKind, InteractiveGlyph, RuntimeConfig};
use crate::project_files::{interactive_of, lemma_loaded_settings_are_saved_ones};
use crate::text::{push_decimal, push_str, str_equal, string_of, decimal};

verus! {

/// The override saved for a threshold: none for the project's threshold.
pub open spec fn override_for(threshold: u8, base: u8) -> Option<u8> {
    if threshold == base {
        None
    } else {
        Some(threshold)
    }
}

/// A glyph after its source was given `threshold`.
pub open spec fn with_threshold(g: InteractiveGlyph, threshold: u8, base: u8) -> InteractiveGlyph {
    InteractiveGlyph { working_threshold: threshold, saved_threshold: override_for(threshold, base), ..g }
}

fn contains_key(keys: &Vec<String>, key: &str) -> (r: bool)
    ensures
        r == views(keys@).contains(key@),
{
    let mut i: usize = 0;
    while i < keys.len()
        invariant
            i <= keys@.len(),
            forall|j: int| 0 <= j < i ==> keys@[j]@ != key@,
        decreases keys@.len() - i,
    {
        if str_equal(keys[i].as_str(), key) {
            proof {
                assert(views(keys@)[i as int] == key@);
            }
            return true;
        }
        i = i + 1;
    }
    proof {
        if views(keys@).contains(key@) {
            let v = views(keys@);
            let j = choose|j: int| 0 <= j < v.len() && #[trigger] v[j] == key@;
            assert(keys@[j]@ == key@);
        }
    }
    false
}

/// Gives the sources `sources` the threshold `threshold`: their glyphs work
/// at it and save it as an override (none when it is `base_threshold`), and
/// the table of overrides holds the same; other glyphs and entries are
/// left as they are.
pub fn apply_threshold_to_sources(
    overrides: &mut Vec<(String, u8)>,
    glyphs: &mut Vec<InteractiveGlyph>,
    sources: &Vec<String>,
    threshold: u8,
    base_threshold: u8,
)
    requires
        keys_unique(old(overrides)@),
    ensures
        keys_unique(final(overrides)@),
        forall|k: Seq<char>| #[trigger] entry_of(final(overrides)@, k) == if views(sources@).contains(k) {
            override_for(threshold, base_threshold)
        } else {
            entry_of(old(overrides)@, k)
        },
        final(glyphs)@.len() == old(glyphs)@.len(),
        forall|i: int| 0 <= i < old(glyphs)@.len() ==> #[trigger] final(glyphs)@[i] == if views(sources@).contains(
            old(glyphs)@[i].glyph.source_parent_key@,
        ) {
            with_threshold(old(glyphs)@[i], threshold, base_threshold)
        } else {
            old(glyphs)@[i]
        },
{
    let saved = if threshold == base_threshold { None } else { Some(threshold) };
    let ghost before = glyphs@;
    let mut i: usize = 0;
    while i < glyphs.len()
        invariant
            glyphs@.len() == before.len(),
            i <= before.len(),
            saved == override_for(threshold, base_threshold),
            forall|j: int| i <= j < before.len() ==> glyphs@[j] == before[j],
            forall|j: int| 0 <= j < i ==> #[trigger] glyphs@[j] == if views(sources@).contains(before[j].glyph.source_parent_key@) {
                with_threshold(before[j], threshold, base_threshold)
            } else {
                before[j]
            },
        decreases before.len() - i,
    {
        if contains_key(sources, glyphs[i].glyph.source_parent_key.as_str()) {
            let ghost mid = glyphs@;
            let mut g = glyphs.remove(i);
            g.working_threshold = threshold;
            g.saved_threshold = saved;
            glyphs.insert(i, g);
            proof {
                assert(glyphs@ =~= mid.update(i as int, with_threshold(before[i as int], threshold, base_threshold)));
            }
        }
        i = i + 1;
    }
    let ghost table0 = overrides@;
    let mut s: usize = 0;
    while s < sources.len()
        invariant
            s <= sources@.len(),
            keys_unique(overrides@),
            saved == override_for(threshold, base_threshold),
            forall|k: Seq<char>| #[trigger] entry_of(overrides@, k) == if views(sources@).take(s as int).contains(k) {
                override_for(threshold, base_threshold)
            } else {
                entry_of(table0, k)
            },
        decreases sources@.len() - s,
    {
        let ghost prev = overrides@;
        set_table_entry(overrides, sources[s].as_str(), saved);
        proof {
            let vs = views(sources@);
            assert forall|k: Seq<char>| #[trigger] entry_of(overrides@, k) == if vs.take(s + 1).contains(k) {
                override_for(threshold, base_threshold)
            } else {
                entry_of(table0, k)
            } by {
                assert(vs.take(s + 1) =~= vs.take(s as int).push(vs[s as int]));
                assert(entry_of(prev, k) == if vs.take(s as int).contains(k) {
                    override_for(threshold, base_threshold)
                } else {
                    entry_of(table0, k)
                });
                if k == vs[s as int] {
                    assert(vs.take(s + 1).contains(k)) by {
                        assert(vs.take(s + 1)[s as int] == k);
                    }
                } else {
                    let a = vs.take(s + 1);
                    let b = vs.take(s as int);
                    if a.contains(k) {
                        let j = choose|j: int| 0 <= j < a.len() && #[trigger] a[j] == k;
                        assert(j < s);
                        assert(b[j] == k);
                    }
                    if b.contains(k) {
                        let j = choose|j: int| 0 <= j < b.len() && #[trigger] b[j] == k;
                        assert(a[j] == k);
                    }
                }
            }
        }
        s = s + 1;
    }
    proof {
        assert(views(sources@).take(s as int) =~= views(sources@));
    }
}

/// The status line after a threshold was saved.
pub open spec fn threshold_saved_message(threshold: u8, base: u8) -> Seq<char> {
    match override_for(threshold, base) {
        Some(v) => "saved threshold override: "@ + decimal(v as nat),
        None => "cleared threshold override(s): now using base threshold "@ + decimal(base as nat),
    }
}

pub fn threshold_saved_status(threshold: u8, base_threshold: u8) -> (r: String)
    ensures
        r@ == threshold_saved_message(threshold, base_threshold),
{
    let mut out: Vec<char> = Vec::new();
    if threshold == base_threshold {
        push_str(&mut out, "cleared threshold override(s): now using base threshold ");
        push_decimal(&mut out, base_threshold as u64);
    } else {
        push_str(&mut out, "saved threshold override: ");
        push_decimal(&mut out, threshold as u64);
    }
    proof {
        assert(out@ =~= threshold_saved_message(threshold, base_threshold));
    }
    string_of(&out)
}

/// A glyph whose source was given a threshold works at what loading the
/// project again gives it from the saved table: the session shows what
/// was saved.
pub proof fn lemma_applied_threshold_matches_reload(c: RuntimeConfig, g: InteractiveGlyph, threshold: u8)
    requires
        keys_unique(c.threshold_overrides@),
        keys_unique(c.invert_overrides@),
        entry_of(c.threshold_overrides@, g.glyph.source_parent_key@) == override_for(threshold, c.base_threshold),
        g.working_threshold == threshold,
        g.saved_threshold == override_for(threshold, c.base_threshold),
    ensures
        interactive_of(c, g.glyph).saved_threshold == g.saved_threshold,
        interactive_of(c, g.glyph).working_threshold == g.working_threshold,
{
    lemma_loaded_settings_are_saved_ones(c, g.glyph);
}

/// A glyph after its source was given the invert flag `invert`.
pub open spec fn with_invert(g: InteractiveGlyph, invert: bool) -> InteractiveGlyph {
    InteractiveGlyph { working_invert: invert, saved_invert: invert, ..g }
}

/// Gives the sources `sources` the invert flag `invert`: their glyphs work
/// and save it, and the table of overrides holds it (only inverted sources
/// have an entry); other glyphs and entries are left as they are.
pub fn apply_invert_to_sources(overrides: &mut Vec<(String, bool)>, glyphs: &mut Vec<InteractiveGlyph>, sources: &Vec<String>, invert: bool)
    requires
        keys_unique(old(overrides)@),
    ensures
        keys_unique(final(overrides)@),
        forall|k: Seq<char>| #[trigger] entry_of(final(overrides)@, k) == if views(sources@).contains(k) {
            if invert {
                Some(true)
            } else {
                None
            }
        } else {
            entry_of(old(overrides)@, k)
        },
        final(glyphs)@.len() == old(glyphs)@.len(),
        forall|i: int| 0 <= i < old(glyphs)@.len() ==> #[trigger] final(glyphs)@[i] == if views(sources@).contains(
            old(glyphs)@[i].glyph.source_parent_key@,
        ) {
            with_invert(old(glyphs)@[i], invert)
        } else {
            old(glyphs)@[i]
        },
{
    let saved = if invert { Some(true) } else { None };
    let ghost before = glyphs@;
    let mut i: usize = 0;
    while i < glyphs.len()
        invariant
            glyphs@.len() == before.len(),
            i <= before.len(),
            forall|j: int| i <= j < before.len() ==> glyphs@[j] == before[j],
            forall|j: int| 0 <= j < i ==> #[trigger] glyphs@[j] == if views(sources@).contains(before[j].glyph.source_parent_key@) {
                with_invert(before[j], invert)
            } else {
                before[j]
            },
        decreases before.len() - i,
    {
        if contains_key(sources, glyphs[i].glyph.source_parent_key.as_str()) {
            let ghost mid = glyphs@;
            let mut g = glyphs.remove(i);
            g.working_invert = invert;
            g.saved_invert = invert;
            glyphs.insert(i, g);
            proof {
                assert(glyphs@ =~= mid.update(i as int, with_invert(before[i as int], invert)));
            }
        }
        i = i + 1;
    }
    let ghost table0 = overrides@;
    let mut s: usize = 0;
    while s < sources.len()
        invariant
            s <= sources@.len(),
            keys_unique(overrides@),
            saved == (if invert { Some(true) } else { None::<bool> }),
            forall|k: Seq<char>| #[trigger] entry_of(overrides@, k) == if views(sources@).take(s as int).contains(k) {
                saved
            } else {
                entry_of(table0, k)
            },
        decreases sources@.len() - s,
    {
        let ghost prev = overrides@;
        set_table_entry(overrides, sources[s].as_str(), saved);
        proof {
            let vs = views(sources@);
            assert forall|k: Seq<char>| #[trigger] entry_of(overrides@, k) == if vs.take(s + 1).contains(k) {
                saved
            } else {
                entry_of(table0, k)
            } by {
                assert(vs.take(s + 1) =~= vs.take(s as int).push(vs[s as int]));
                assert(entry_of(prev, k) == if vs.take(s as int).contains(k) {
                    saved
                } else {
                    entry_of(table0, k)
                });
                if k == vs[s as int] {
                    assert(vs.take(s + 1).contains(k)) by {
                        assert(vs.take(s + 1)[s as int] == k);
                    }
                } else {
                    let a = vs.take(s + 1);
                    let b = vs.take(s as int);
                    if a.contains(k) {
                        let j = choose|j: int| 0 <= j < a.len() && #[trigger] a[j] == k;
                        assert(j < s);
                        assert(b[j] == k);
                    }
                    if b.contains(k) {
                        let j = choose|j: int| 0 <= j < b.len() && #[trigger] b[j] == k;
                        assert(a[j] == k);
                    }
                }
            }
        }
        s = s + 1;
    }
    proof {
        assert(views(sources@).take(s as int) =~= views(sources@));
    }
}

pub fn invert_saved_status(invert: bool) -> (r: &'static str)
    ensures
        r@ == (if invert { "saved invert override: on"@ } else { "cleared invert override(s): normal colors"@ }),
{
    if invert {
        "saved invert override: on"
    } else {
        "cleared invert override(s): normal colors"
    }
}

/// The status line after the overrides of the selection were removed.
pub fn override_removed_status(base_threshold: u8) -> (r: String)
    ensures
        r@ == "removed threshold override(s): now using base threshold "@ + decimal(base_threshold as nat),
{
    let mut out: Vec<char> = Vec::new();
    push_str(&mut out, "removed threshold override(s): now using base threshold ");
    push_decimal(&mut out, base_threshold as u64);
    string_of(&out)
}

/// The sources the threshold chosen in the creation popup is saved for:
/// the images just imported, the grid's source, or the selected frames.
pub fn creation_workflow_threshold_sources(
    kind: HomeCreationKind,
    recent_imports: &Vec<String>,
    grid_source: &Option<String>,
    selected_frames: &Vec<String>,
) -> (r: Vec<String>)
    ensures
        views(r@) == match kind {
            HomeCreationKind::Glyph => views(recent_imports@),
            HomeCreationKind::Grid => match grid_source {
                Some(s) => seq![s@],
                None => Seq::empty(),
            },
            _ => views(selected_frames@),
        },
{
    match kind {
        HomeCreationKind::Glyph => copy_strings(recent_imports),
        HomeCreationKind::Grid => match grid_source {
            Some(s) => {
                let v = vec![s.clone()];
                proof {
                    assert(views(v@) =~= seq![s@]);
                }
                v
            },
            None => {
                let v: Vec<String> = Vec::new();
                proof {
                    assert(views(v@) =~= Seq::<Seq<char>>::empty());
                }
                v
            },
        },
        _ => copy_strings(selected_frames),
    }
}

fn copy_strings(v: &Vec<String>) -> (r: Vec<String>)
    ensures
        views(r@) == views(v@),
{
    let mut out: Vec<String> = Vec::new();
    let mut i: usize = 0;
    while i < v.len()
        invariant
            i <= v@.len(),
            views(out@) == views(v@).take(i as int),
        decreases v@.len() - i,
    {
        let ghost before = out@;
        let x = v[i].clone();
        out.push(x);
        proof {
            assert(out@ == before.push(x));
            assert(views(out@) =~= views(before).push(x@));
            assert(views(v@).take(i + 1) =~= views(v@).take(i as int).push(v@[i as int]@));
        }
        i = i + 1;
    }
    proof {
        assert(views(v@).take(i as int) =~= views(v@));
    }
    out
}

} // verus!
