//! Where a dropped file is copied into the project's input folder: under
//! its own name, or numbered when that name is taken.
use vstd::prelude::*;
use crate::animation::{join_path, join_paths, path_extension, path_stem, path_stem_and_extension};
use crate::codepoints::views;
use crate::text::{chars_of, decimal, push_all, push_decimal, string_of};

verus! {

/// The stem numbered copies of `file_name` are named after (`glyph` when it
/// has none).
pub open spec fn import_stem(file_name: Seq<char>) -> Seq<char> {
    match path_stem(file_name) {
        Some(s) => if s.len() > 0 {
            s
        } else {
            "glyph"@
        },
        None => "glyph"@,
    }
}

/// The extension numbered copies of `file_name` keep, if it has one.
pub open spec fn import_extension(file_name: Seq<char>) -> Option<Seq<char>> {
    match path_extension(file_name) {
        Some(e) => if e.len() > 0 {
            Some(e)
        } else {
            None
        },
        None => None,
    }
}

/// The `index`-th numbered name for `file_name`: `<stem>-<index>.<ext>`.
pub open spec fn numbered_import_name(file_name: Seq<char>, index: nat) -> Seq<char> {
    import_stem(file_name) + seq!['-'] + decimal(index) + match import_extension(file_name) {
        Some(e) => seq!['.'] + e,
        None => Seq::empty(),
    }
}

fn numbered_name(stem: &Vec<char>, ext: &Option<Vec<char>>, index: u64) -> (r: String)
    ensures
        r@ == stem@ + seq!['-'] + decimal(index as nat) + match ext {
            Some(e) => seq!['.'] + e@,
            None => Seq::empty(),
        },
{
    let mut out = stem.clone();
    proof {
        assert(out@ == stem@);
    }
    out.push('-');
    push_decimal(&mut out, index);
    match ext {
        Some(e) => {
            out.push('.');
            push_all(&mut out, e);
        },
        None => {},
    }
    proof {
        assert(out@ =~= stem@ + seq!['-'] + decimal(index as nat) + match ext {
            Some(e) => seq!['.'] + e@,
            None => Seq::empty(),
        });
    }
    string_of(&out)
}

/// `is_taken` said that `path` is taken.
pub open spec fn path_taken<F: Fn(&String) -> bool>(is_taken: F, path: Seq<char>) -> bool {
    exists|s: String| s@ == path && #[trigger] call_ensures(is_taken, (&s,), true)
}

/// The path of the `index`-th numbered name for `file_name` in `input_dir`.
pub open spec fn numbered_path(input_dir: Seq<char>, file_name: Seq<char>, index: nat) -> Seq<char> {
    join_path(input_dir, numbered_import_name(file_name, index))
}

/// Where `file_name` is imported into `input_dir`, and whether it had to be
/// renamed: its own name when `is_taken` says that path is free, else the
/// lowest numbered name (from 1 on) that `is_taken` says is free.  The
/// path returned is one `is_taken` said is free, unless every numbered
/// name up to `u64::MAX` is taken.
pub fn next_available_import_destination<F>(input_dir: &str, file_name: &str, is_taken: F) -> (r: (String, bool))
    where
        F: Fn(&String) -> bool,
    requires
        forall|p: &String| #[trigger] call_requires(is_taken, (p,)),
    ensures
        call_ensures(is_taken, (&r.0,), false) || (!r.1 && forall|i: nat|
            1 <= i <= u64::MAX ==> #[trigger] path_taken(is_taken, numbered_path(input_dir@, file_name@, i))),
        !r.1 ==> r.0@ == join_path(input_dir@, file_name@),
        r.1 ==> path_taken(is_taken, join_path(input_dir@, file_name@)),
        r.1 ==> exists|i: nat|
            1 <= i && r.0@ == #[trigger] numbered_path(input_dir@, file_name@, i) && forall|j: nat|
                1 <= j < i ==> #[trigger] path_taken(is_taken, numbered_path(input_dir@, file_name@, j)),
{
    let candidate = join_paths(input_dir, file_name);
    if !is_taken(&candidate) {
        return (candidate, false);
    }
    let (stem, ext) = path_stem_and_extension(&chars_of(file_name));
    let stem = match stem {
        Some(s) => if s.len() > 0 {
            s
        } else {
            chars_of("glyph")
        },
        None => chars_of("glyph"),
    };
    let ext = match ext {
        Some(e) => if e.len() > 0 {
            Some(e)
        } else {
            None
        },
        None => None,
    };
    proof {
        assert(stem@ == import_stem(file_name@));
        assert(match ext {
            Some(e) => Some(e@),
            None => None::<Seq<char>>,
        } == import_extension(file_name@));
    }
    proof {
        assert(path_taken(is_taken, join_path(input_dir@, file_name@))) by {
            assert(call_ensures(is_taken, (&candidate,), true));
        }
    }
    let mut index: u64 = 1;
    loop
        invariant
            1 <= index,
            candidate@ == join_path(input_dir@, file_name@),
            path_taken(is_taken, join_path(input_dir@, file_name@)),
            forall|j: nat| 1 <= j < index ==> #[trigger] path_taken(is_taken, numbered_path(input_dir@, file_name@, j)),
            stem@ == import_stem(file_name@),
            (match ext {
                Some(e) => Some(e@),
                None => None::<Seq<char>>,
            }) == import_extension(file_name@),
            forall|p: &String| #[trigger] call_requires(is_taken, (p,)),
        decreases u64::MAX - index,
    {
        let name = numbered_name(&stem, &ext, index);
        proof {
            assert(name@ == numbered_import_name(file_name@, index as nat));
        }
        let next = join_paths(input_dir, name.as_str());
        proof {
            assert(next@ == numbered_path(input_dir@, file_name@, index as nat));
        }
        if !is_taken(&next) {
            return (next, true);
        }
        proof {
            assert(path_taken(is_taken, numbered_path(input_dir@, file_name@, index as nat))) by {
                assert(call_ensures(is_taken, (&next,), true));
            }
        }
        if index == u64::MAX {
            return (candidate, false);
        }
        index = index + 1;
    }
}


// ---------------------------------------------------------------------------
// Importing a drop
// ---------------------------------------------------------------------------
/// What to do with a dropped file whose name is already in the input
/// folder: import a numbered copy, or reuse the file there when it is the
/// same.
#[derive(Debug, Clone, Copy, PartialEq, Eq, Structural)]
pub enum ExistingImportPolicy {
    Rename,
    ReuseIdentical,
}

/// What the file system says of one dropped path.
#[derive(Debug, Clone)]
pub enum DroppedFileCheck {
    /// Not a file.
    Missing,
    /// Neither a source the project builds from nor an AVIF image.
    Unsupported,
    /// No file name to import it under.
    NoFileName,
    /// A file to import: `key` is the source key of the file under its own
    /// name in the input folder, `same_file` tells whether the dropped path
    /// is that very file, and `identical_copy` whether that file exists with
    /// the same contents.
    Candidate { key: String, same_file: bool, identical_copy: bool },
}

/// The tallies of a drop import, and the source keys it brought in (all of
/// them, and those it created).
#[derive(Debug, Clone)]
pub struct DropImportTally {
    pub imported: usize,
    pub renamed: usize,
    pub skipped_existing: usize,
    pub skipped_unsupported: usize,
    pub skipped_missing: usize,
    pub imported_source_keys: Vec<String>,
    pub created_source_keys: Vec<String>,
}

pub open spec fn tally_view(t: DropImportTally) -> (nat, nat, nat, nat, nat, Seq<Seq<char>>, Seq<Seq<char>>) {
    (
        t.imported as nat,
        t.renamed as nat,
        t.skipped_existing as nat,
        t.skipped_unsupported as nat,
        t.skipped_missing as nat,
        views(t.imported_source_keys@),
        views(t.created_source_keys@),
    )
}

/// The tallies before the first dropped file.
pub fn empty_drop_tally() -> (r: DropImportTally)
    ensures
        tally_view(r) == (0nat, 0nat, 0nat, 0nat, 0nat, Seq::<Seq<char>>::empty(), Seq::<Seq<char>>::empty()),
{
    let r = DropImportTally {
        imported: 0,
        renamed: 0,
        skipped_existing: 0,
        skipped_unsupported: 0,
        skipped_missing: 0,
        imported_source_keys: Vec::new(),
        created_source_keys: Vec::new(),
    };
    proof {
        assert(views(r.imported_source_keys@) =~= Seq::<Seq<char>>::empty());
        assert(views(r.created_source_keys@) =~= Seq::<Seq<char>>::empty());
    }
    r
}

/// The error of a drop that names no file.
pub fn empty_drop_error() -> (r: &'static str)
    ensures
        r@ == "drop did not include readable file paths"@,
{
    "drop did not include readable file paths"
}

/// Decides a dropped file: a missing or nameless one and an unsupported
/// one are counted as skipped; one that is its own destination, or (when
/// reusing) has an identical copy there, is counted as already present and
/// its key is listed; any other must be imported (the result is `true`)
/// and changes nothing yet.
pub fn decide_dropped_file(tally: &mut DropImportTally, check: &DroppedFileCheck, policy: ExistingImportPolicy) -> (import: bool)
    requires
        old(tally).skipped_missing < usize::MAX,
        old(tally).skipped_unsupported < usize::MAX,
        old(tally).skipped_existing < usize::MAX,
    ensures
        ({
            let (i, rn, e, u, m, keys, created) = tally_view(*old(tally));
            match check {
                DroppedFileCheck::Missing | DroppedFileCheck::NoFileName => !import && tally_view(*final(tally))
                    == (i, rn, e, u, m + 1, keys, created),
                DroppedFileCheck::Unsupported => !import && tally_view(*final(tally)) == (i, rn, e, u + 1, m, keys, created),
                DroppedFileCheck::Candidate { key, same_file, identical_copy } => if *same_file || (policy
                    == ExistingImportPolicy::ReuseIdentical && *identical_copy) {
                    !import && tally_view(*final(tally)) == (i, rn, e + 1, u, m, keys.push(key@), created)
                } else {
                    import && tally_view(*final(tally)) == tally_view(*old(tally))
                },
            }
        }),
        (import, tally_view(*final(tally))) == decide_view(tally_view(*old(tally)), *check, policy),
{
    match check {
        DroppedFileCheck::Missing | DroppedFileCheck::NoFileName => {
            tally.skipped_missing = tally.skipped_missing + 1;
            false
        },
        DroppedFileCheck::Unsupported => {
            tally.skipped_unsupported = tally.skipped_unsupported + 1;
            false
        },
        DroppedFileCheck::Candidate { key, same_file, identical_copy } => {
            if *same_file || (policy == ExistingImportPolicy::ReuseIdentical && *identical_copy) {
                let ghost before = tally.imported_source_keys@;
                let k = key.clone();
                tally.imported_source_keys.push(k);
                tally.skipped_existing = tally.skipped_existing + 1;
                proof {
                    assert(views(tally.imported_source_keys@) =~= views(before).push(key@));
                }
                false
            } else {
                true
            }
        },
    }
}

/// Counts a file imported as `key`, renamed or not.
pub fn record_import(tally: &mut DropImportTally, key: String, renamed: bool)
    requires
        old(tally).imported < usize::MAX,
        old(tally).renamed < usize::MAX,
    ensures
        ({
            let (i, rn, e, u, m, keys, created) = tally_view(*old(tally));
            tally_view(*final(tally)) == (i + 1, if renamed { rn + 1 } else { rn }, e, u, m, keys.push(key@), created.push(key@))
        }),
        tally_view(*final(tally)) == record_view(tally_view(*old(tally)), key@, renamed),
{
    let ghost keys = tally.imported_source_keys@;
    let ghost created = tally.created_source_keys@;
    let k = key.clone();
    tally.imported_source_keys.push(k);
    tally.created_source_keys.push(key);
    tally.imported = tally.imported + 1;
    if renamed {
        tally.renamed = tally.renamed + 1;
    }
    proof {
        assert(views(tally.imported_source_keys@) =~= views(keys).push(key@));
        assert(views(tally.created_source_keys@) =~= views(created).push(key@));
    }
}


/// The tallies of a drop import as values: imported, renamed, skipped as
/// present, unsupported, missing; the keys brought in, and those created.
pub open spec fn decide_view(
    t: (nat, nat, nat, nat, nat, Seq<Seq<char>>, Seq<Seq<char>>),
    check: DroppedFileCheck,
    policy: ExistingImportPolicy,
) -> (bool, (nat, nat, nat, nat, nat, Seq<Seq<char>>, Seq<Seq<char>>)) {
    let (i, rn, e, u, m, keys, created) = t;
    match check {
        DroppedFileCheck::Missing | DroppedFileCheck::NoFileName => (false, (i, rn, e, u, m + 1, keys, created)),
        DroppedFileCheck::Unsupported => (false, (i, rn, e, u + 1, m, keys, created)),
        DroppedFileCheck::Candidate { key, same_file, identical_copy } => if same_file || (policy
            == ExistingImportPolicy::ReuseIdentical && identical_copy) {
            (false, (i, rn, e + 1, u, m, keys.push(key@), created))
        } else {
            (true, t)
        },
    }
}

/// The tallies after a file was imported as `key`.
pub open spec fn record_view(
    t: (nat, nat, nat, nat, nat, Seq<Seq<char>>, Seq<Seq<char>>),
    key: Seq<char>,
    renamed: bool,
) -> (nat, nat, nat, nat, nat, Seq<Seq<char>>, Seq<Seq<char>>) {
    let (i, rn, e, u, m, keys, created) = t;
    (i + 1, if renamed { rn + 1 } else { rn }, e, u, m, keys.push(key), created.push(key))
}

/// The tallies of a whole drop: each dropped path, in order, is decided
/// from what the file system says of it (`steps[k].0`), and when it is to
/// be imported it is counted as imported under `steps[k].1`, renamed or
/// not (`steps[k].2`).
pub open spec fn drop_import_tally(
    policy: ExistingImportPolicy,
    steps: Seq<(DroppedFileCheck, Seq<char>, bool)>,
) -> (nat, nat, nat, nat, nat, Seq<Seq<char>>, Seq<Seq<char>>)
    decreases steps.len(),
{
    if steps.len() == 0 {
        (0, 0, 0, 0, 0, Seq::empty(), Seq::empty())
    } else {
        let prev = drop_import_tally(policy, steps.drop_last());
        let (check, key, renamed) = steps.last();
        let (import, t) = decide_view(prev, check, policy);
        if import {
            record_view(t, key, renamed)
        } else {
            t
        }
    }
}

/// `a` is `b` with some elements left out, the rest in order.
pub open spec fn subsequence_of(a: Seq<Seq<char>>, b: Seq<Seq<char>>) -> bool {
    exists|idx: Seq<int>|
        #![trigger idx.len()]
        idx.len() == a.len() && (forall|k: int, l: int| 0 <= k < l < idx.len() ==> idx[k] < idx[l]) && (forall|k: int|
            0 <= k < idx.len() ==> 0 <= #[trigger] idx[k] < b.len() && b[idx[k]] == a[k])
}

/// Every dropped path is counted once: as imported, already present,
/// unsupported or missing; no more are renamed than imported; a key is
/// created for each import, a key is listed for each import and each file
/// already present, and the created keys come in the order they are listed.
pub proof fn lemma_drop_import_counts(policy: ExistingImportPolicy, steps: Seq<(DroppedFileCheck, Seq<char>, bool)>)
    ensures
        ({
            let (i, rn, e, u, m, keys, created) = drop_import_tally(policy, steps);
            &&& i + e + u + m == steps.len()
            &&& rn <= i
            &&& created.len() == i
            &&& keys.len() == i + e
            &&& subsequence_of(created, keys)
        }),
    decreases steps.len(),
{
    if steps.len() == 0 {
        let idx = Seq::<int>::empty();
        assert(idx.len() == 0);
    } else {
        let init = steps.drop_last();
        lemma_drop_import_counts(policy, init);
        let prev = drop_import_tally(policy, init);
        let (i0, rn0, e0, u0, m0, keys0, created0) = prev;
        let idx0 = choose|idx: Seq<int>|
            #![trigger idx.len()]
            idx.len() == created0.len() && (forall|k: int, l: int| 0 <= k < l < idx.len() ==> idx[k] < idx[l]) && (
            forall|k: int| 0 <= k < idx.len() ==> 0 <= #[trigger] idx[k] < keys0.len() && keys0[idx[k]] == created0[k]);
        let (check, key, renamed) = steps.last();
        let (import, t) = decide_view(prev, check, policy);
        if import {
            assert(t == prev);
            let r = record_view(t, key, renamed);
            let idx = idx0.push(keys0.len() as int);
            assert(idx.len() == r.6.len());
            assert forall|k: int| 0 <= k < idx.len() implies 0 <= #[trigger] idx[k] < r.5.len() && r.5[idx[k]] == r.6[k] by {
                if k < idx0.len() {
                    assert(idx[k] == idx0[k]);
                }
            }
        } else {
            assert(t.6 == created0);
            assert(idx0.len() == t.6.len());
            assert forall|k: int| 0 <= k < idx0.len() implies 0 <= #[trigger] idx0[k] < t.5.len() && t.5[idx0[k]] == t.6[k] by {
                assert(t.5.len() >= keys0.len());
                assert(t.5[idx0[k]] == keys0[idx0[k]]);
            }
        }
    }
}

} // verus!
