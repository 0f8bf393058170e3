//! What the TUI makes of the files of a project once they are read: the
//! name shown for a project whose manifest cannot be read, the sample text
//! of a build, the glyphs loaded from preprocessed sources, and the source
//! keys asked for.
use vstd::prelude::*;
use crate::shell::{first_attempt, next_attempt};
use crate::codepoints::views;
use crate::drop_paths::first_occurrences;
use crate::installed_meta::{override_of, override_value};
use crate::keys::{split_once, split_once_chars};
use crate::manifest_edit::{entry_of, has_key, keys_unique};
use crate::model::{InteractiveGlyph, PreprocessedGlyph, RuntimeConfig};
use crate::text::{
    chars_of, is_blank, lemma_first_occurrence, push_str, str_equal, string_of, trim, trim_end, trim_end_chars,
};

verus! {

// ---------------------------------------------------------------------------
// Project names
// ---------------------------------------------------------------------------
/// `-` and `_` read as spaces.
pub open spec fn separators_to_spaces(s: Seq<char>) -> Seq<char> {
    Seq::new(s.len(), |i: int| if s[i] == '-' || s[i] == '_' { ' ' } else { s[i] })
}

/// The name listed for a project whose manifest cannot be read: the name
/// of its folder with `-` and `_` read as spaces, or `Unknown project`.
pub open spec fn fallback_name(folder: Option<Seq<char>>) -> Seq<char> {
    match folder {
        Some(n) => if trim(separators_to_spaces(n)).len() > 0 {
            separators_to_spaces(n)
        } else {
            "Unknown project"@
        },
        None => "Unknown project"@,
    }
}

/// The name listed for a project whose manifest is malformed, given the
/// name of the folder that holds the manifest.
pub fn fallback_project_name(folder_name: Option<&str>) -> (r: String)
    ensures
        r@ == fallback_name(
            match folder_name {
                Some(n) => Some(n@),
                None => None,
            },
        ),
{
    let name = match folder_name {
        Some(n) => n,
        None => return "Unknown project".to_owned(),
    };
    let chars = chars_of(name);
    let mut out: Vec<char> = Vec::new();
    let mut i: usize = 0;
    while i < chars.len()
        invariant
            i <= chars@.len(),
            chars@ == name@,
            out@ == separators_to_spaces(chars@).take(i as int),
        decreases chars@.len() - i,
    {
        let c = chars[i];
        out.push(if c == '-' || c == '_' { ' ' } else { c });
        proof {
            assert(out@ =~= separators_to_spaces(chars@).take(i + 1));
        }
        i = i + 1;
    }
    proof {
        assert(out@ =~= separators_to_spaces(name@));
    }
    if is_blank(&out) {
        "Unknown project".to_owned()
    } else {
        string_of(&out)
    }
}

// ---------------------------------------------------------------------------
// Samples
// ---------------------------------------------------------------------------
/// `str::split(pat)` for a pattern that is not empty: the pieces between
/// the occurrences of `pat`, found from left to right without overlap.
pub open spec fn split_all(s: Seq<char>, pat: Seq<char>) -> Seq<Seq<char>>
    decreases s.len(),
{
    match split_once(s, pat) {
        Some((a, b)) => if pat.len() > 0 && b.len() < s.len() {
            seq![a] + split_all(b, pat)
        } else {
            seq![s]
        },
        None => seq![s],
    }
}

fn split_all_chars(s: &Vec<char>, pat: &Vec<char>) -> (r: Vec<String>)
    requires
        pat@.len() > 0,
    ensures
        views(r@) == split_all(s@, pat@),
{
    let mut out: Vec<String> = Vec::new();
    let mut rest: Vec<char> = s.clone();
    proof {
        assert(rest@ == s@);
        assert(views(out@) + split_all(rest@, pat@) =~= split_all(s@, pat@));
    }
    loop
        invariant
            pat@.len() > 0,
            views(out@) + split_all(rest@, pat@) == split_all(s@, pat@),
        decreases rest@.len(),
    {
        match split_once_chars(&rest, pat) {
            Some((a, b)) => {
                proof {
                    lemma_first_occurrence(rest@, pat@);
                    assert(b@.len() < rest@.len());
                    assert(split_all(rest@, pat@) == seq![a@] + split_all(b@, pat@));
                }
                let ghost before = out@;
                out.push(string_of(&a));
                proof {
                    assert(views(out@) =~= views(before).push(a@));
                    assert(views(out@) + split_all(b@, pat@) =~= views(before) + split_all(rest@, pat@));
                }
                rest = b;
            },
            None => {
                let ghost before = out@;
                out.push(string_of(&rest));
                proof {
                    assert(split_all(rest@, pat@) == seq![rest@]);
                    assert(views(out@) =~= views(before) + split_all(rest@, pat@));
                }
                return out;
            },
        }
    }
}

/// The sample blocks of a build: the sample text without its trailing
/// whitespace, cut at blank lines; none when nothing is left.
pub open spec fn sample_blocks(raw: Seq<char>) -> Option<Seq<Seq<char>>> {
    if trim_end(raw).len() == 0 {
        None
    } else {
        Some(split_all(trim_end(raw), seq!['\n', '\n']))
    }
}

pub fn sample_blocks_from_text(raw: &str) -> (r: Option<Vec<String>>)
    ensures
        (match r {
            Some(v) => Some(views(v@)),
            None => None,
        }) == sample_blocks(raw@),
{
    let t = trim_end_chars(&chars_of(raw));
    if t.len() == 0 {
        return None;
    }
    let pat: Vec<char> = vec!['\n', '\n'];
    proof {
        assert(pat@ =~= seq!['\n', '\n']);
    }
    Some(split_all_chars(&t, &pat))
}

/// A sample text without its trailing whitespace; none when nothing is
/// left.
pub open spec fn trimmed_sample(raw: Seq<char>) -> Option<Seq<char>> {
    if trim_end(raw).len() == 0 {
        None
    } else {
        Some(trim_end(raw))
    }
}

pub fn trimmed_sample_text(raw: &str) -> (r: Option<String>)
    ensures
        (match r {
            Some(s) => Some(s@),
            None => None,
        }) == trimmed_sample(raw@),
{
    let t = trim_end_chars(&chars_of(raw));
    if t.len() == 0 {
        None
    } else {
        Some(string_of(&t))
    }
}

/// The status line after an uninstall: whether the font file was removed
/// or was already gone.
pub open spec fn uninstall_message(removed: bool, file_name: Seq<char>) -> Seq<char> {
    if removed {
        "uninstalled "@ + file_name
    } else {
        "font already absent: "@ + file_name
    }
}

pub fn uninstall_status_message(removed: bool, file_name: &str) -> (r: String)
    ensures
        r@ == uninstall_message(removed, file_name@),
{
    let mut out: Vec<char> = Vec::new();
    if removed {
        push_str(&mut out, "uninstalled ");
    } else {
        push_str(&mut out, "font already absent: ");
    }
    push_str(&mut out, file_name);
    string_of(&out)
}

// ---------------------------------------------------------------------------
// Loading glyphs
// ---------------------------------------------------------------------------
/// Each source key once, at its first place.
pub fn first_occurrence_keys(source_keys: &Vec<String>) -> (r: Vec<String>)
    ensures
        views(r@) == first_occurrences(views(source_keys@)),
{
    let mut out: Vec<String> = Vec::new();
    let mut i: usize = 0;
    proof {
        assert(views(source_keys@).take(0) =~= Seq::<Seq<char>>::empty());
    }
    while i < source_keys.len()
        invariant
            i <= source_keys@.len(),
            views(out@) == first_occurrences(views(source_keys@).take(i as int)),
        decreases source_keys@.len() - i,
    {
        let ghost all = views(source_keys@);
        proof {
            assert(all.take(i + 1).drop_last() =~= all.take(i as int));
            assert(all.take(i + 1).last() == source_keys@[i as int]@);
        }
        let mut seen = false;
        let mut q: usize = 0;
        while q < out.len()
            invariant
                q <= out@.len(),
                i < source_keys@.len(),
                seen <==> exists|a: int| 0 <= a < q && out@[a]@ == source_keys@[i as int]@,
            decreases out@.len() - q,
        {
            if str_equal(out[q].as_str(), source_keys[i].as_str()) {
                seen = true;
            }
            q = q + 1;
        }
        let ghost before = views(out@);
        proof {
            if seen {
                let a = choose|a: int| 0 <= a < q && out@[a]@ == source_keys@[i as int]@;
                assert(before[a] == source_keys@[i as int]@);
            } else {
                assert forall|a: int| 0 <= a < before.len() implies before[a] != source_keys@[i as int]@ by {
                    assert(before[a] == out@[a]@);
                }
            }
        }
        if !seen {
            out.push(source_keys[i].clone());
            proof {
                assert(views(out@) =~= before.push(source_keys@[i as int]@));
            }
        }
        i = i + 1;
    }
    proof {
        assert(views(source_keys@).take(i as int) =~= views(source_keys@));
    }
    out
}

/// The value stored for `key` in a table of flags.
pub open spec fn flag_of(pairs: Seq<(String, bool)>, key: Seq<char>) -> Option<bool>
    decreases pairs.len(),
{
    if pairs.len() == 0 {
        None
    } else if pairs[0].0@ == key {
        Some(pairs[0].1)
    } else {
        flag_of(pairs.skip(1), key)
    }
}

fn flag_value(pairs: &Vec<(String, bool)>, key: &str) -> (r: Option<bool>)
    ensures
        r == flag_of(pairs@, key@),
{
    let mut i: usize = 0;
    proof {
        assert(pairs@.skip(0) =~= pairs@);
    }
    while i < pairs.len()
        invariant
            i <= pairs@.len(),
            flag_of(pairs@, key@) == flag_of(pairs@.skip(i as int), key@),
        decreases pairs@.len() - i,
    {
        if str_equal(pairs[i].0.as_str(), key) {
            proof {
                assert(pairs@.skip(i as int)[0] == pairs@[i as int]);
            }
            return Some(pairs[i].1);
        }
        proof {
            assert(pairs@.skip(i as int).skip(1) =~= pairs@.skip(i + 1));
        }
        i = i + 1;
    }
    None
}

/// A loaded glyph with the threshold and invert saved for its source (its
/// parent, for a grid tile or an animation frame), working at the saved
/// values: the project threshold and no invert when nothing is saved.
pub open spec fn interactive_of(c: RuntimeConfig, g: PreprocessedGlyph) -> InteractiveGlyph {
    let saved = override_of(c.threshold_overrides@, g.source_parent_key@);
    let invert = match flag_of(c.invert_overrides@, g.source_parent_key@) {
        Some(b) => b,
        None => false,
    };
    InteractiveGlyph {
        glyph: g,
        saved_threshold: saved,
        working_threshold: match saved {
            Some(t) => t,
            None => c.base_threshold,
        },
        saved_invert: invert,
        working_invert: invert,
    }
}

pub fn interactive_glyph_from_preprocessed(config: &RuntimeConfig, glyph: PreprocessedGlyph) -> (r: InteractiveGlyph)
    ensures
        r == interactive_of(*config, glyph),
{
    let saved = override_value(&config.threshold_overrides, glyph.source_parent_key.as_str());
    let invert = match flag_value(&config.invert_overrides, glyph.source_parent_key.as_str()) {
        Some(b) => b,
        None => false,
    };
    let working = match saved {
        Some(t) => t,
        None => config.base_threshold,
    };
    InteractiveGlyph {
        glyph,
        saved_threshold: saved,
        working_threshold: working,
        saved_invert: invert,
        working_invert: invert,
    }
}

/// The glyphs of a project, in the order their sources were preprocessed.
pub fn interactive_glyphs_from_preprocessed(config: &RuntimeConfig, glyphs: Vec<PreprocessedGlyph>) -> (r: Vec<InteractiveGlyph>)
    ensures
        r@.len() == glyphs@.len(),
        forall|i: int| 0 <= i < glyphs@.len() ==> #[trigger] r@[i] == interactive_of(*config, glyphs@[i]),
{
    let ghost all = glyphs@;
    let mut rest = glyphs;
    let mut out: Vec<InteractiveGlyph> = Vec::new();
    while rest.len() > 0
        invariant
            out@.len() + rest@.len() == all.len(),
            rest@ == all.skip(out@.len() as int),
            forall|i: int| 0 <= i < out@.len() ==> #[trigger] out@[i] == interactive_of(*config, all[i]),
        decreases rest@.len(),
    {
        let ghost n = out@.len();
        let g = rest.remove(0);
        proof {
            assert(g == all[n as int]);
            assert(rest@ =~= all.skip(n as int + 1));
        }
        out.push(interactive_glyph_from_preprocessed(config, g));
    }
    out
}

// ---------------------------------------------------------------------------
// What is saved is what is loaded
// ---------------------------------------------------------------------------
proof fn lemma_override_is_entry(pairs: Seq<(String, u8)>, key: Seq<char>)
    requires
        keys_unique(pairs),
    ensures
        override_of(pairs, key) == entry_of(pairs, key),
    decreases pairs.len(),
{
    if pairs.len() == 0 {
        if exists|i: int| has_key(pairs, key, i) {
            let i = choose|i: int| has_key(pairs, key, i);
            assert(false);
        }
    } else if pairs[0].0@ == key {
        let j = choose|j: int| has_key(pairs, key, j);
        assert(has_key(pairs, key, 0));
        if j != 0 {
            assert(pairs[0].0@ != pairs[j].0@);
        }
    } else {
        let rest = pairs.skip(1);
        assert forall|a: int, b: int| 0 <= a < rest.len() && 0 <= b < rest.len() && a != b implies #[trigger] rest[a].0@ != #[trigger] rest[b].0@ by {
            assert(pairs[a + 1].0@ != pairs[b + 1].0@);
        }
        lemma_override_is_entry(rest, key);
        if exists|i: int| has_key(pairs, key, i) {
            let i = choose|i: int| has_key(pairs, key, i);
            assert(i != 0);
            assert(has_key(rest, key, i - 1));
            let j = choose|j: int| has_key(rest, key, j);
            if j != i - 1 {
                assert(rest[j].0@ != rest[i - 1].0@);
            }
        } else {
            if exists|j: int| has_key(rest, key, j) {
                let j = choose|j: int| has_key(rest, key, j);
                assert(has_key(pairs, key, j + 1));
            }
        }
    }
}

proof fn lemma_flag_is_entry(pairs: Seq<(String, bool)>, key: Seq<char>)
    requires
        keys_unique(pairs),
    ensures
        flag_of(pairs, key) == entry_of(pairs, key),
    decreases pairs.len(),
{
    if pairs.len() == 0 {
        if exists|i: int| has_key(pairs, key, i) {
            let i = choose|i: int| has_key(pairs, key, i);
            assert(false);
        }
    } else if pairs[0].0@ == key {
        let j = choose|j: int| has_key(pairs, key, j);
        assert(has_key(pairs, key, 0));
        if j != 0 {
            assert(pairs[0].0@ != pairs[j].0@);
        }
    } else {
        let rest = pairs.skip(1);
        assert forall|a: int, b: int| 0 <= a < rest.len() && 0 <= b < rest.len() && a != b implies #[trigger] rest[a].0@ != #[trigger] rest[b].0@ by {
            assert(pairs[a + 1].0@ != pairs[b + 1].0@);
        }
        lemma_flag_is_entry(rest, key);
        if exists|i: int| has_key(pairs, key, i) {
            let i = choose|i: int| has_key(pairs, key, i);
            assert(i != 0);
            assert(has_key(rest, key, i - 1));
            let j = choose|j: int| has_key(rest, key, j);
            if j != i - 1 {
                assert(rest[j].0@ != rest[i - 1].0@);
            }
        } else {
            if exists|j: int| has_key(rest, key, j) {
                let j = choose|j: int| has_key(rest, key, j);
                assert(has_key(pairs, key, j + 1));
            }
        }
    }
}

/// A glyph is loaded with the threshold and the invert flag that the
/// manifest's tables hold for its source: what an edit saves is what the
/// next load works with.
pub proof fn lemma_loaded_settings_are_saved_ones(c: RuntimeConfig, g: PreprocessedGlyph)
    requires
        keys_unique(c.threshold_overrides@),
        keys_unique(c.invert_overrides@),
    ensures
        interactive_of(c, g).saved_threshold == entry_of(c.threshold_overrides@, g.source_parent_key@),
        interactive_of(c, g).working_threshold == match entry_of(c.threshold_overrides@, g.source_parent_key@) {
            Some(t) => t,
            None => c.base_threshold,
        },
        interactive_of(c, g).saved_invert == (entry_of(c.invert_overrides@, g.source_parent_key@) == Some(true)),
        interactive_of(c, g).working_invert == interactive_of(c, g).saved_invert,
{
    lemma_override_is_entry(c.threshold_overrides@, g.source_parent_key@);
    lemma_flag_is_entry(c.invert_overrides@, g.source_parent_key@);
}

// ---------------------------------------------------------------------------
// Installed font files
// ---------------------------------------------------------------------------
pub open spec fn opt_seq(o: Option<String>) -> Seq<Seq<char>> {
    match o {
        Some(s) => seq![s@],
        None => Seq::empty(),
    }
}

/// Where an installed font of the project may be: the paths its install
/// records list, then the path an install would use by default, then the
/// plain one; each path once.
pub fn installed_font_candidates(listed: &Vec<String>, default_mode_path: Option<String>, plain_mode_path: Option<String>) -> (r: Vec<String>)
    ensures
        views(r@) == first_occurrences(views(listed@) + opt_seq(default_mode_path) + opt_seq(plain_mode_path)),
{
    let mut all: Vec<String> = Vec::new();
    let mut i: usize = 0;
    while i < listed.len()
        invariant
            i <= listed@.len(),
            views(all@) == views(listed@).take(i as int),
        decreases listed@.len() - i,
    {
        let ghost before = all@;
        let x = listed[i].clone();
        all.push(x);
        proof {
            assert(all@ == before.push(x));
            assert(views(all@) =~= views(before).push(x@));
            assert(views(listed@).take(i + 1) =~= views(listed@).take(i as int).push(listed@[i as int]@));
        }
        i = i + 1;
    }
    let ghost base = views(all@);
    match &default_mode_path {
        Some(p) => all.push(p.clone()),
        None => {},
    }
    let ghost mid = views(all@);
    match &plain_mode_path {
        Some(p) => all.push(p.clone()),
        None => {},
    }
    proof {
        assert(base =~= views(listed@));
        assert(mid =~= base + opt_seq(default_mode_path));
        assert(views(all@) =~= views(listed@) + opt_seq(default_mode_path) + opt_seq(plain_mode_path));
    }
    first_occurrence_keys(&all)
}

/// The first candidate that `is_installed` accepts, asking in order and
/// stopping at the first yes (the order and the stop are those of
/// `first_attempt` and `next_attempt`).
pub fn resolve_installed_font_path_with<F>(candidates: &Vec<String>, is_installed: F) -> (r: Option<String>)
    where
        F: Fn(&String) -> bool,
    requires
        forall|i: int| 0 <= i < candidates@.len() ==> call_requires(is_installed, (&candidates@[i],)),
    ensures
        r matches Some(p) ==> exists|k: int|
            0 <= k < candidates@.len() && p@ == candidates@[k]@ && #[trigger] call_ensures(is_installed, (&candidates@[k],), true)
                && forall|j: int| 0 <= j < k ==> call_ensures(is_installed, (&candidates@[j],), false),
        r is None ==> forall|k: int| 0 <= k < candidates@.len() ==> call_ensures(is_installed, (&candidates@[k],), false),
{
    let mut found: Option<String> = None;
    let ghost mut refused: int = 0;
    let mut cursor = first_attempt(candidates.len());
    loop
        invariant
            0 <= refused <= candidates@.len(),
            forall|j: int| 0 <= j < candidates@.len() ==> call_requires(is_installed, (&candidates@[j],)),
            forall|j: int| 0 <= j < refused ==> call_ensures(is_installed, (&candidates@[j],), false),
            cursor matches Some(c) ==> found is None && c == refused && c < candidates@.len(),
            cursor is None ==> found is Some || refused == candidates@.len(),
            found matches Some(p) ==> refused < candidates@.len() && p@ == candidates@[refused]@
                && call_ensures(is_installed, (&candidates@[refused],), true),
        ensures
            cursor is None,
        decreases candidates@.len() - refused + (if cursor is Some { 1int } else { 0int }),
    {
        let i = match cursor {
            Some(i) => i,
            None => break,
        };
        let c: &String = &candidates[i];
        let yes = is_installed(c);
        if yes {
            let p = c.clone();
            proof {
                assert(call_ensures(is_installed, (&candidates@[i as int],), true));
            }
            found = Some(p);
        } else {
            proof {
                refused = refused + 1;
            }
        }
        cursor = next_attempt(i, yes, candidates.len());
    }
    found
}

} // verus!
