//! Animations in the glyph list: which glyph shows a frame, which frame
//! the preview shows, the sources whose thresholds an animation uses, and
//! the default name of a new animation.
use vstd::prelude::*;
use crate::codepoints::views;
use crate::drop_paths::{extension_of, last_dot, last_dot_index, lemma_last_dot, stem_of};
use crate::keys::{
    compose_marker, display_name, file_name, file_name_of, frame_parent, parse_compose,
    parse_compose_tile_key, animation_frame_parent_source, source_display_name, strip_trailing_slashes,
    last_slash, lemma_strip_trailing_slashes, lemma_last_slash,
};
use crate::model::{
    AnimationDef, AnimationPreview, AnimationType, InteractiveGlyph, RuntimeConfig, VisibleGlyphRow,
};
use crate::natural::{insert_sorted_unique, strictly_sorted};
use crate::text::{
    all_digits, chars_equal, chars_of, contains_seq, contains_str, decimal, is_digit, lower, matches_at,
    occurs_at, parse_unsigned, parse_unsigned_chars, push_all, push_decimal, push_str, slice_chars, str_equal,
    string_of, unsigned_body,
};

verus! {

// ---------------------------------------------------------------------------
// Frames and glyphs
// ---------------------------------------------------------------------------
/// A glyph shows the frame `frame` when its key or its parent key is the
/// frame's key, or when both are tiles of the same position in grids of the
/// same size over the same source.
pub open spec fn frame_matches(glyph_key: Seq<char>, glyph_parent: Seq<char>, frame: Seq<char>) -> bool {
    ||| glyph_key == frame
    ||| glyph_parent == frame
    ||| (parse_compose(frame) is Some && parse_compose(glyph_key) == parse_compose(frame))
}

pub fn glyph_matches_animation_frame_source(glyph: &InteractiveGlyph, frame_source_key: &str) -> (r: bool)
    ensures
        r == frame_matches(glyph.glyph.source_key@, glyph.glyph.source_parent_key@, frame_source_key@),
{
    if str_equal(glyph.glyph.source_key.as_str(), frame_source_key) || str_equal(
        glyph.glyph.source_parent_key.as_str(),
        frame_source_key,
    ) {
        return true;
    }
    let (fp, frows, fcols, frow, fcol) = match parse_compose_tile_key(frame_source_key) {
        Some(t) => t,
        None => return false,
    };
    let (gp, grows, gcols, grow, gcol) = match parse_compose_tile_key(glyph.glyph.source_key.as_str()) {
        Some(t) => t,
        None => return false,
    };
    str_equal(gp.as_str(), fp.as_str()) && grows == frows && gcols == fcols && grow == frow && gcol
        == fcol
}

/// In a standard animation a plain frame key is shown only by the glyph of
/// that exact key that is not a grid tile; tile keys match as in
/// `frame_matches`.
pub open spec fn row_frame_matches(glyph: InteractiveGlyph, animation_type: AnimationType, frame: Seq<char>) -> bool {
    if animation_type == AnimationType::Standard && !contains_seq(frame, compose_marker()) {
        glyph.glyph.source_key@ == frame && glyph.glyph.composition_tile is None
    } else {
        frame_matches(glyph.glyph.source_key@, glyph.glyph.source_parent_key@, frame)
    }
}

pub fn glyph_matches_animation_row_frame(glyph: &InteractiveGlyph, animation: &AnimationDef, frame_source_key: &str) -> (r: bool)
    ensures
        r == row_frame_matches(*glyph, animation.animation_type, frame_source_key@),
{
    let chars = chars_of(frame_source_key);
    let tiled = contains_str(&chars, "#compose:");
    proof {
        reveal_strlit("#compose:");
        assert("#compose:"@ =~= compose_marker());
    }
    if animation.animation_type == AnimationType::Standard && !tiled {
        return str_equal(glyph.glyph.source_key.as_str(), frame_source_key)
            && glyph.glyph.composition_tile.is_none();
    }
    glyph_matches_animation_frame_source(glyph, frame_source_key)
}

/// The frame the preview of `animation` shows: the selected frame row, or
/// else the playing frame (clamped to the last frame) when the preview
/// plays this animation.
pub open spec fn preview_frame_source(
    selected_row: Option<VisibleGlyphRow>,
    animation: AnimationDef,
    preview: Option<AnimationPreview>,
) -> Option<Seq<char>> {
    match selected_row {
        Some(VisibleGlyphRow::AnimationFrame { source_key, .. }) => Some(source_key@),
        _ => match preview {
            None => None,
            Some(p) => if p.animation_name@ != animation.name@ {
                None
            } else {
                let n = animation.frames@.len();
                let last: nat = if n > 0 { (n - 1) as nat } else { 0 };
                let idx: nat = if (p.frame_index as nat) < last { p.frame_index as nat } else { last };
                if idx < n {
                    Some(animation.frames@[idx as int]@)
                } else {
                    None
                }
            },
        },
    }
}

pub fn animation_frame_source_for_preview(
    selected_row: Option<&VisibleGlyphRow>,
    animation: &AnimationDef,
    preview: Option<&AnimationPreview>,
) -> (r: Option<String>)
    ensures
        (match r {
            Some(s) => Some(s@),
            None => None,
        }) == preview_frame_source(
            match selected_row {
                Some(row) => Some(*row),
                None => None,
            },
            *animation,
            match preview {
                Some(p) => Some(*p),
                None => None,
            },
        ),
{
    if let Some(VisibleGlyphRow::AnimationFrame { source_key, .. }) = selected_row {
        return Some(source_key.clone());
    }
    let p = match preview {
        Some(p) => p,
        None => return None,
    };
    if !str_equal(p.animation_name.as_str(), animation.name.as_str()) {
        return None;
    }
    let n = animation.frames.len();
    let last = if n > 0 { n - 1 } else { 0 };
    let idx = if p.frame_index < last { p.frame_index } else { last };
    if idx < n {
        Some(animation.frames[idx].clone())
    } else {
        None
    }
}

// ---------------------------------------------------------------------------
// Threshold sources
// ---------------------------------------------------------------------------
/// The parent sources of the frames of `animation`.
pub open spec fn frame_parents(animation: AnimationDef) -> Seq<Seq<char>> {
    Seq::new(animation.frames@.len(), |i: int| frame_parent(animation.frames@[i]@))
}

/// Adds the parent source of every frame of `animation` to a sorted set.
fn add_frame_parents(set: &mut Vec<String>, animation: &AnimationDef)
    requires
        strictly_sorted(old(set)@),
    ensures
        strictly_sorted(final(set)@),
        forall|x: Seq<char>|
            #[trigger] views(final(set)@).contains(x) <==> (views(old(set)@).contains(x)
                || frame_parents(*animation).contains(x)),
{
    let ghost start = set@;
    let mut i: usize = 0;
    while i < animation.frames.len()
        invariant
            i <= animation.frames@.len(),
            strictly_sorted(set@),
            forall|x: Seq<char>|
                #[trigger] views(set@).contains(x) <==> (views(start).contains(x)
                    || frame_parents(*animation).take(i as int).contains(x)),
        decreases animation.frames@.len() - i,
    {
        let parent = animation_frame_parent_source(animation.frames[i].as_str());
        let ghost pv = parent@;
        let ghost mid = set@;
        insert_sorted_unique(set, parent);
        proof {
            let fp = frame_parents(*animation);
            let t0 = fp.take(i as int);
            let t1 = fp.take(i + 1);
            assert(t1 =~= t0.push(pv));
            assert forall|x: Seq<char>| #[trigger] views(set@).contains(x) <==> (views(start).contains(x)
                || fp.take(i + 1).contains(x)) by {
                assert(views(mid).contains(x) <==> (views(start).contains(x) || t0.contains(x)));
                assert(views(set@).contains(x) <==> (views(mid).contains(x) || x == pv));
                if x == pv {
                    assert(t1[i as int] == x);
                }
                if t0.contains(x) {
                    let k = choose|k: int| 0 <= k < t0.len() && t0[k] == x;
                    assert(t1[k] == x);
                }
                if t1.contains(x) {
                    let k = choose|k: int| 0 <= k < t1.len() && t1[k] == x;
                    if k < i {
                        assert(t0[k] == x);
                    }
                }
            }
        }
        i = i + 1;
    }
    proof {
        assert(frame_parents(*animation).take(i as int) =~= frame_parents(*animation));
    }
}

/// The distinct parent sources of an animation's frames, in `String`
/// order.
pub fn animation_threshold_parent_sources(animation: &AnimationDef) -> (r: Vec<String>)
    ensures
        strictly_sorted(r@),
        forall|x: Seq<char>| #[trigger] views(r@).contains(x) <==> frame_parents(*animation).contains(x),
{
    let mut set: Vec<String> = Vec::new();
    proof {
        assert forall|x: Seq<char>| !#[trigger] views(set@).contains(x) by {}
    }
    add_frame_parents(&mut set, animation);
    set
}

/// Some animation of `config` has a frame whose parent source is `x`.
pub open spec fn is_animation_parent(config: RuntimeConfig, x: Seq<char>) -> bool {
    exists|a: int| 0 <= a < config.animations@.len() && #[trigger] frame_parents(config.animations@[a]).contains(x)
}

/// The distinct parent sources of the frames of every animation of the
/// project, in `String` order.
pub fn animation_frame_parent_sources(config: &RuntimeConfig) -> (r: Vec<String>)
    ensures
        strictly_sorted(r@),
        forall|x: Seq<char>| #[trigger] views(r@).contains(x) <==> is_animation_parent(*config, x),
{
    let mut set: Vec<String> = Vec::new();
    let mut a: usize = 0;
    while a < config.animations.len()
        invariant
            a <= config.animations@.len(),
            strictly_sorted(set@),
            forall|x: Seq<char>|
                #[trigger] views(set@).contains(x) <==> exists|b: int|
                    0 <= b < a && #[trigger] frame_parents(config.animations@[b]).contains(x),
        decreases config.animations@.len() - a,
    {
        add_frame_parents(&mut set, &config.animations[a]);
        proof {
            assert forall|x: Seq<char>| #[trigger] views(set@).contains(x) <==> exists|b: int|
                0 <= b < a + 1 && #[trigger] frame_parents(config.animations@[b]).contains(x) by {
                if frame_parents(config.animations@[a as int]).contains(x) {
                    assert(0 <= a < a + 1);
                }
            }
        }
        a = a + 1;
    }
    set
}

// ---------------------------------------------------------------------------
// Paths
// ---------------------------------------------------------------------------
/// `Path::join` on `/`-separated paths: an absolute `rel` replaces `base`;
/// otherwise a `/` is put between them where `base` does not end in one.
pub open spec fn join_path(base: Seq<char>, rel: Seq<char>) -> Seq<char> {
    if rel.len() > 0 && rel[0] == '/' {
        rel
    } else if base.len() > 0 && base.last() != '/' {
        base + seq!['/'] + rel
    } else {
        base + rel
    }
}

pub fn join_paths(base: &str, rel: &str) -> (r: String)
    ensures
        r@ == join_path(base@, rel@),
{
    let b = chars_of(base);
    let l = chars_of(rel);
    if l.len() > 0 && l[0] == '/' {
        return string_of(&l);
    }
    let mut out = b.clone();
    proof {
        assert(out@ == b@);
    }
    if b.len() > 0 && b[b.len() - 1] != '/' {
        out.push('/');
    }
    push_all(&mut out, &l);
    proof {
        assert(out@ =~= join_path(base@, rel@));
    }
    string_of(&out)
}

/// The configuration used while no project is open.
pub fn inactive_runtime_config(workspace_root: &str) -> (r: RuntimeConfig)
    ensures
        r.project_dir@ == workspace_root@,
        r.project_id@ == "inactive-workspace"@,
        r.input_dir@ == join_path(workspace_root@, "images"@),
        r.out_dir@ == join_path(workspace_root@, "build"@),
        r.font_name@ == "No active project"@,
        r.glyph_size == 64,
        r.base_threshold == 64,
        r.threshold_overrides@.len() == 0,
        r.invert_overrides@.len() == 0,
        r.compositions@.len() == 0,
        r.animations@.len() == 0,
        r.codepoint_start == 0x10_0000,
{
    RuntimeConfig {
        project_dir: workspace_root.to_owned(),
        project_id: "inactive-workspace".to_owned(),
        input_dir: join_paths(workspace_root, "images"),
        out_dir: join_paths(workspace_root, "build"),
        font_name: "No active project".to_owned(),
        glyph_size: 64,
        base_threshold: 64,
        threshold_overrides: Vec::new(),
        invert_overrides: Vec::new(),
        compositions: Vec::new(),
        animations: Vec::new(),
        codepoint_start: 0x10_0000,
    }
}


// ---------------------------------------------------------------------------
// Default animation names
// ---------------------------------------------------------------------------
pub open spec fn is_separator(c: char) -> bool {
    c == '-' || c == '_'
}

/// `s` without its `-` and `_` characters.
pub open spec fn without_separators(s: Seq<char>) -> Seq<char>
    decreases s.len(),
{
    if s.len() == 0 {
        s
    } else if is_separator(s.last()) {
        without_separators(s.drop_last())
    } else {
        without_separators(s.drop_last()).push(s.last())
    }
}

/// `s` without the ASCII digits it ends with.
pub open spec fn trim_end_digits(s: Seq<char>) -> Seq<char>
    decreases s.len(),
{
    if s.len() > 0 && is_digit(s.last()) {
        trim_end_digits(s.drop_last())
    } else {
        s
    }
}

pub open spec fn is_alnum(c: char) -> bool {
    is_digit(c) || ('a' <= c && c <= 'z') || ('A' <= c && c <= 'Z')
}

/// The slug of `s`: its ASCII letters and digits in lower case, each run of
/// other characters between two of them turned into one `_`.
pub open spec fn slug(s: Seq<char>) -> Seq<char>
    decreases s.len(),
{
    if s.len() == 0 {
        s
    } else {
        let p = slug(s.drop_last());
        let c = s.last();
        if !is_alnum(c) {
            p
        } else if p.len() > 0 && !is_alnum(s[s.len() - 2]) {
            p.push('_').push(lower(c))
        } else {
            p.push(lower(c))
        }
    }
}

/// The file stem of a frame's display name (`Path::file_stem`).
pub open spec fn name_stem(frame: Seq<char>) -> Seq<char> {
    let d = display_name(frame);
    match file_name(d) {
        Some(n) => stem_of(n),
        None => d,
    }
}

/// The animation name a frame suggests: the slug of its file stem without
/// separators and trailing digits, or `animation`.
pub open spec fn name_base(frame: Seq<char>) -> Seq<char> {
    let sl = slug(trim_end_digits(without_separators(name_stem(frame))));
    if sl.len() == 0 {
        "animation"@
    } else {
        sl
    }
}

fn remove_separators(v: &Vec<char>) -> (r: Vec<char>)
    ensures
        r@ == without_separators(v@),
{
    let mut out: Vec<char> = Vec::new();
    let mut i: usize = 0;
    proof {
        assert(v@.take(0) =~= Seq::<char>::empty());
    }
    while i < v.len()
        invariant
            i <= v@.len(),
            out@ == without_separators(v@.take(i as int)),
        decreases v@.len() - i,
    {
        proof {
            assert(v@.take(i + 1).drop_last() =~= v@.take(i as int));
        }
        if v[i] != '-' && v[i] != '_' {
            out.push(v[i]);
        }
        i = i + 1;
    }
    proof {
        assert(v@.take(i as int) =~= v@);
    }
    out
}

fn trim_end_digit_chars(v: &Vec<char>) -> (r: Vec<char>)
    ensures
        r@ == trim_end_digits(v@),
{
    let mut end = v.len();
    proof {
        assert(v@.take(end as int) =~= v@);
    }
    while end > 0 && crate::text::char_is_digit(v[end - 1])
        invariant
            end <= v@.len(),
            trim_end_digits(v@) == trim_end_digits(v@.take(end as int)),
        decreases end,
    {
        proof {
            assert(v@.take(end - 1) =~= v@.take(end as int).drop_last());
        }
        end = end - 1;
    }
    let r = slice_chars(v, 0, end);
    proof {
        assert(r@ =~= v@.take(end as int));
    }
    r
}

fn char_is_alnum(c: char) -> (r: bool)
    ensures
        r == is_alnum(c),
{
    crate::text::char_is_digit(c) || ('a' <= c && c <= 'z') || ('A' <= c && c <= 'Z')
}

/// The slug of `v` (see `slug`).
pub fn slugify_chars(v: &Vec<char>) -> (r: Vec<char>)
    ensures
        r@ == slug(v@),
{
    let mut out: Vec<char> = Vec::new();
    let mut i: usize = 0;
    proof {
        assert(v@.take(0) =~= Seq::<char>::empty());
    }
    while i < v.len()
        invariant
            i <= v@.len(),
            out@ == slug(v@.take(i as int)),
        decreases v@.len() - i,
    {
        let ghost t = v@.take(i + 1);
        proof {
            assert(t.drop_last() =~= v@.take(i as int));
            assert(t.last() == v@[i as int]);
            if i > 0 {
                assert(t[t.len() - 2] == v@[i - 1]);
            }
        }
        let c = v[i];
        if char_is_alnum(c) {
            if out.len() > 0 && !char_is_alnum(v[i - 1]) {
                out.push('_');
            }
            out.push(crate::text::char_lower(c));
        }
        i = i + 1;
    }
    proof {
        assert(v@.take(i as int) =~= v@);
    }
    out
}

fn file_stem_chars(d: &Vec<char>) -> (r: Vec<char>)
    ensures
        r@ == (match file_name(d@) {
            Some(n) => stem_of(n),
            None => d@,
        }),
{
    match file_name_of(d) {
        Some(n) => {
            if n.len() == 2 && n[0] == '.' && n[1] == '.' {
                proof {
                    assert(n@ =~= seq!['.', '.']);
                }
                return n;
            }
            match last_dot_index(&n) {
                Some(k) => {
                    if k == 0 {
                        n
                    } else {
                        proof {
                            assert(n@ != seq!['.', '.']);
                        }
                        let r = slice_chars(&n, 0, k);
                        proof {
                            assert(r@ =~= n@.take(k as int));
                        }
                        r
                    }
                },
                None => n,
            }
        },
        None => d.clone(),
    }
}

/// The animation name suggested by a frame's source key.
pub fn animation_name_base_from_frame(frame: &str) -> (r: String)
    ensures
        r@ == name_base(frame@),
{
    let d = chars_of(source_display_name(frame).as_str());
    let stem = file_stem_chars(&d);
    let sl = slugify_chars(&trim_end_digit_chars(&remove_separators(&stem)));
    if sl.len() == 0 {
        "animation".to_owned()
    } else {
        string_of(&sl)
    }
}

pub open spec fn animation_names(config: RuntimeConfig) -> Seq<Seq<char>> {
    Seq::new(config.animations@.len(), |i: int| config.animations@[i].name@)
}

/// `<stem>_<idx>`.
pub open spec fn numbered_name(stem: Seq<char>, idx: nat) -> Seq<char> {
    stem + seq!['_'] + decimal(idx)
}

/// The first index from `idx` up to 9999 whose numbered name is free.
pub open spec fn first_free_from(names: Seq<Seq<char>>, stem: Seq<char>, idx: nat) -> Option<nat>
    decreases 10000 - idx,
{
    if idx > 9999 {
        None
    } else if !names.contains(numbered_name(stem, idx)) {
        Some(idx)
    } else {
        first_free_from(names, stem, idx + 1)
    }
}

/// The stem of the default name: the first frame's name base (or
/// `animation`) followed by `_anim`.
pub open spec fn default_stem(frames: Seq<Seq<char>>) -> Seq<char> {
    let base = if frames.len() > 0 && name_base(frames[0]).len() > 0 {
        name_base(frames[0])
    } else {
        "animation"@
    };
    base + "_anim"@
}

/// The default name of an animation made of `frames`: the stem when it is
/// free, else the stem numbered with the first free index up to 9999, else
/// the stem.
pub open spec fn default_name(names: Seq<Seq<char>>, frames: Seq<Seq<char>>) -> Seq<char> {
    let stem = default_stem(frames);
    if !names.contains(stem) {
        stem
    } else {
        match first_free_from(names, stem, 1) {
            Some(i) => numbered_name(stem, i),
            None => stem,
        }
    }
}

pub proof fn lemma_first_free_from(names: Seq<Seq<char>>, stem: Seq<char>, idx: nat)
    ensures
        first_free_from(names, stem, idx) matches Some(i) ==> idx <= i <= 9999 && !names.contains(
            numbered_name(stem, i),
        ),
        first_free_from(names, stem, idx) is None ==> forall|j: nat|
            idx <= j <= 9999 ==> names.contains(#[trigger] numbered_name(stem, j)),
    decreases 10000 - idx,
{
    if idx <= 9999 && names.contains(numbered_name(stem, idx)) {
        lemma_first_free_from(names, stem, idx + 1);
        if first_free_from(names, stem, idx) is None {
            assert forall|j: nat| idx <= j <= 9999 implies names.contains(#[trigger] numbered_name(stem, j)) by {
                if j > idx {
                    assert(idx + 1 <= j);
                }
            }
        }
    }
}

/// The default name of a new animation is not taken by another animation,
/// unless its stem and all 9999 numbered variants are.
pub proof fn lemma_default_name_is_free(names: Seq<Seq<char>>, frames: Seq<Seq<char>>)
    ensures
        !names.contains(default_name(names, frames)) || (names.contains(default_stem(frames))
            && forall|j: nat| 1 <= j <= 9999 ==> names.contains(#[trigger] numbered_name(default_stem(frames), j))),
{
    lemma_first_free_from(names, default_stem(frames), 1);
}

fn name_taken(config: &RuntimeConfig, name: &String) -> (r: bool)
    ensures
        r == animation_names(*config).contains(name@),
{
    let mut i: usize = 0;
    while i < config.animations.len()
        invariant
            i <= config.animations@.len(),
            forall|j: int| 0 <= j < i ==> config.animations@[j].name@ != name@,
        decreases config.animations@.len() - i,
    {
        if str_equal(config.animations[i].name.as_str(), name.as_str()) {
            proof {
                assert(animation_names(*config)[i as int] == name@);
            }
            return true;
        }
        i = i + 1;
    }
    proof {
        if animation_names(*config).contains(name@) {
            let k = choose|k: int| 0 <= k < animation_names(*config).len() && animation_names(*config)[k] == name@;
            assert(config.animations@[k].name@ == name@);
        }
    }
    false
}

/// The name proposed for a new animation made of `frames`.
pub fn default_animation_name_from_frames(config: &RuntimeConfig, frames: &Vec<String>) -> (r: String)
    ensures
        r@ == default_name(animation_names(*config), views(frames@)),
{
    let ghost names = animation_names(*config);
    let ghost fv = views(frames@);
    let base = if frames.len() > 0 {
        let b = animation_name_base_from_frame(frames[0].as_str());
        if b.as_str().unicode_len() > 0 {
            b
        } else {
            "animation".to_owned()
        }
    } else {
        "animation".to_owned()
    };
    proof {
        if frames.len() > 0 {
            assert(fv[0] == frames@[0]@);
        }
        assert(base@ == (if fv.len() > 0 && name_base(fv[0]).len() > 0 {
            name_base(fv[0])
        } else {
            "animation"@
        }));
    }
    let mut stem_chars = chars_of(base.as_str());
    push_str(&mut stem_chars, "_anim");
    let stem = string_of(&stem_chars);
    proof {
        assert(stem@ =~= default_stem(fv));
    }
    if !name_taken(config, &stem) {
        return stem;
    }
    let mut idx: u64 = 1;
    while idx <= 9999
        invariant
            1 <= idx <= 10000,
            stem@ == default_stem(fv),
            fv == views(frames@),
            names == animation_names(*config),
            names.contains(stem@),
            first_free_from(names, stem@, 1) == first_free_from(names, stem@, idx as nat),
        decreases 10000 - idx,
    {
        let mut cand = chars_of(stem.as_str());
        cand.push('_');
        push_decimal(&mut cand, idx);
        let candidate = string_of(&cand);
        proof {
            assert(candidate@ =~= numbered_name(stem@, idx as nat));
        }
        if !name_taken(config, &candidate) {
            proof {
                assert(first_free_from(names, stem@, idx as nat) == Some(idx as nat));
            }
            return candidate;
        }
        idx = idx + 1;
    }
    stem
}


// ---------------------------------------------------------------------------
// Duplicating a source for a grid
// ---------------------------------------------------------------------------
/// The index of the last `c` in `s`, or -1.
pub open spec fn last_index(s: Seq<char>, c: char) -> int
    decreases s.len(),
{
    if s.len() == 0 {
        -1
    } else if s.last() == c {
        s.len() - 1
    } else {
        last_index(s.drop_last(), c)
    }
}

pub proof fn lemma_last_index(s: Seq<char>, c: char)
    ensures
        -1 <= last_index(s, c) < s.len(),
        last_index(s, c) >= 0 ==> s[last_index(s, c)] == c,
        forall|j: int| last_index(s, c) < j < s.len() ==> s[j] != c,
    decreases s.len(),
{
    if s.len() > 0 && s.last() != c {
        lemma_last_index(s.drop_last(), c);
        assert forall|j: int| last_index(s, c) < j < s.len() implies s[j] != c by {
            if j < s.len() - 1 {
                assert(s[j] == s.drop_last()[j]);
            }
        }
    }
}

/// `s` without its `-<digits>` suffixes, taken off from the right.
pub open spec fn strip_numeric_suffixes(s: Seq<char>) -> Seq<char>
    decreases s.len(),
{
    let k = last_index(s, '-');
    if k < 0 {
        s
    } else {
        let tail = s.skip(k + 1);
        if tail.len() == 0 || !all_digits(tail) {
            s
        } else {
            proof {
                lemma_last_index(s, '-');
            }
            strip_numeric_suffixes(s.take(k))
        }
    }
}

/// A file stem without its `-<number>` suffixes (`frame-2-3` is `frame`);
/// a stem that is nothing but suffixes stays as it is.
pub open spec fn base_stem(s: Seq<char>) -> Seq<char> {
    let c = strip_numeric_suffixes(s);
    if c.len() == 0 {
        s
    } else {
        c
    }
}

fn last_index_before(s: &Vec<char>, end: usize, c: char) -> (r: Option<usize>)
    requires
        end <= s@.len(),
    ensures
        r matches Some(k) ==> k < end && last_index(s@.take(end as int), c) == k as int,
        r is None ==> last_index(s@.take(end as int), c) == -1,
{
    let mut k = end;
    while k > 0
        invariant
            k <= end <= s@.len(),
            last_index(s@.take(end as int), c) == last_index(s@.take(k as int), c),
        decreases k,
    {
        if s[k - 1] == c {
            return Some(k - 1);
        }
        proof {
            assert(s@.take(k - 1) =~= s@.take(k as int).drop_last());
        }
        k = k - 1;
    }
    None
}

fn all_digit_chars(s: &Vec<char>, from: usize, to: usize) -> (r: bool)
    requires
        from <= to <= s@.len(),
    ensures
        r == all_digits(s@.subrange(from as int, to as int)),
{
    let mut i = from;
    while i < to
        invariant
            from <= i <= to <= s@.len(),
            forall|j: int| from <= j < i ==> is_digit(s@[j]),
        decreases to - i,
    {
        if !crate::text::char_is_digit(s[i]) {
            proof {
                assert(s@.subrange(from as int, to as int)[i - from] == s@[i as int]);
            }
            return false;
        }
        i = i + 1;
    }
    proof {
        assert forall|j: int| 0 <= j < to - from implies is_digit(#[trigger] s@.subrange(from as int, to as int)[j]) by {
            assert(s@.subrange(from as int, to as int)[j] == s@[from + j]);
        }
    }
    true
}

fn base_stem_chars(s: &Vec<char>) -> (r: Vec<char>)
    ensures
        r@ == base_stem(s@),
{
    let mut end = s.len();
    proof {
        assert(s@.take(end as int) =~= s@);
    }
    loop
        invariant
            end <= s@.len(),
            strip_numeric_suffixes(s@) == strip_numeric_suffixes(s@.take(end as int)),
        ensures
            strip_numeric_suffixes(s@) == s@.take(end as int),
        decreases end,
    {
        let ghost cur = s@.take(end as int);
        let k = match last_index_before(s, end, '-') {
            Some(k) => k,
            None => {
                proof {
                    assert(strip_numeric_suffixes(cur) == cur);
                }
                break;
            },
        };
        let empty_tail = k + 1 == end;
        if empty_tail || !all_digit_chars(s, k + 1, end) {
            proof {
                assert(cur.skip(k + 1) =~= s@.subrange(k + 1, end as int));
                assert(strip_numeric_suffixes(cur) == cur);
            }
            break;
        }
        proof {
            assert(cur.skip(k + 1) =~= s@.subrange(k + 1, end as int));
            assert(cur.take(k as int) =~= s@.take(k as int));
        }
        end = k;
    }
    if end == 0 {
        s.clone()
    } else {
        let r = slice_chars(s, 0, end);
        proof {
            assert(r@ =~= s@.take(end as int));
        }
        r
    }
}

/// A file stem without its `-<number>` suffixes.
pub fn stem_without_trailing_numeric_suffixes(stem: &str) -> (r: String)
    ensures
        r@ == base_stem(stem@),
{
    string_of(&base_stem_chars(&chars_of(stem)))
}

/// `Path::file_stem` of a `/`-separated path.
pub open spec fn path_stem(p: Seq<char>) -> Option<Seq<char>> {
    match file_name(p) {
        Some(n) => Some(stem_of(n)),
        None => None,
    }
}

/// `Path::extension` of a `/`-separated path.
pub open spec fn path_extension(p: Seq<char>) -> Option<Seq<char>> {
    match file_name(p) {
        Some(n) => extension_of(n),
        None => None,
    }
}

pub(crate) fn path_stem_and_extension(p: &Vec<char>) -> (r: (Option<Vec<char>>, Option<Vec<char>>))
    ensures
        (match r.0 {
            Some(v) => Some(v@),
            None => None,
        }) == path_stem(p@),
        (match r.1 {
            Some(v) => Some(v@),
            None => None,
        }) == path_extension(p@),
{
    let n = match file_name_of(p) {
        Some(n) => n,
        None => return (None, None),
    };
    if n.len() == 2 && n[0] == '.' && n[1] == '.' {
        proof {
            assert(n@ =~= seq!['.', '.']);
        }
        return (Some(n), None);
    }
    proof {
        assert(n@ != seq!['.', '.']);
    }
    match last_dot_index(&n) {
        Some(k) => {
            if k == 0 {
                (Some(n), None)
            } else {
                let st = slice_chars(&n, 0, k);
                let ext = slice_chars(&n, k + 1, n.len());
                proof {
                    assert(st@ =~= n@.take(k as int));
                    assert(ext@ =~= n@.skip(k + 1));
                }
                (Some(st), Some(ext))
            }
        },
        None => (Some(n), None),
    }
}

/// The stem a duplicate of `source` is numbered from.
pub open spec fn duplicate_base(source: Seq<char>) -> Seq<char> {
    let st = match path_stem(source) {
        Some(st) => if st.len() > 0 {
            st
        } else {
            "glyph"@
        },
        None => "glyph"@,
    };
    base_stem(st)
}

/// The number of an existing file `name` that is a numbered copy
/// `<base>-<n>` with the same extension.
pub open spec fn numeric_suffix(name: Seq<char>, base: Seq<char>, ext: Option<Seq<char>>) -> Option<nat> {
    if path_extension(name) != ext {
        None
    } else {
        match path_stem(name) {
            None => None,
            Some(st) => if st == base {
                None
            } else if occurs_at(st, base, 0) && st.len() > base.len() && st[base.len() as int] == '-' {
                parse_unsigned(st.skip(base.len() as int + 1), u32::MAX as nat)
            } else {
                None
            },
        }
    }
}

/// The largest number of the numbered copies among `names` (0 if none).
pub open spec fn max_suffix(names: Seq<Seq<char>>, base: Seq<char>, ext: Option<Seq<char>>) -> nat
    decreases names.len(),
{
    if names.len() == 0 {
        0
    } else {
        let m = max_suffix(names.drop_last(), base, ext);
        match numeric_suffix(names.last(), base, ext) {
            Some(v) => if v > m {
                v
            } else {
                m
            },
            None => m,
        }
    }
}

/// The file name of the next copy of `source` among the files `names`:
/// `<base>-<n+1>` with the source's extension, `n` the largest number in
/// use (the count saturates at `u32::MAX`).
pub open spec fn duplicate_file_name(source: Seq<char>, names: Seq<Seq<char>>) -> Seq<char> {
    let base = duplicate_base(source);
    let ext = path_extension(source);
    let m = max_suffix(names, base, ext);
    let next: nat = if m >= u32::MAX { u32::MAX as nat } else { m + 1 };
    match ext {
        Some(e) => base + seq!['-'] + decimal(next) + seq!['.'] + e,
        None => base + seq!['-'] + decimal(next),
    }
}

/// `c` does not occur in `s`.
pub open spec fn lacks_char(s: Seq<char>, c: char) -> bool {
    forall|j: int| 0 <= j < s.len() ==> s[j] != c
}

/// A file name is one component: not empty, without `/`, and neither `.`
/// nor `..`.
proof fn lemma_file_name_component(p: Seq<char>)
    ensures
        file_name(p) matches Some(n) ==> n.len() > 0 && lacks_char(n, '/') && n != seq!['.'] && n != seq![
            '.',
            '.',
        ],
    decreases p.len(),
{
    let t = strip_trailing_slashes(p);
    lemma_strip_trailing_slashes(p);
    if t.len() > 0 {
        lemma_last_slash(t);
        let k = last_slash(t) + 1;
        assert(k < t.len());
        let piece = t.skip(k);
        if piece == seq!['.'] {
            lemma_file_name_component(t.take(k));
        } else if piece != seq!['.', '.'] {
            assert forall|j: int| 0 <= j < piece.len() implies piece[j] != '/' by {
                assert(piece[j] == t[k + j]);
            }
        }
    }
}

/// A single component is its own file name.
proof fn lemma_component_file_name(n: Seq<char>)
    requires
        n.len() > 0,
        lacks_char(n, '/'),
        n != seq!['.'],
        n != seq!['.', '.'],
    ensures
        file_name(n) == Some(n),
{
    assert(strip_trailing_slashes(n) == n);
    lemma_last_slash(n);
    assert(last_slash(n) == -1);
    assert(n.skip(0) =~= n);
}

/// The last `.` of `s` is at `p` when `s[p]` is a `.` and none follows it.
proof fn lemma_last_dot_at(s: Seq<char>, p: int)
    requires
        0 <= p < s.len(),
        s[p] == '.',
        forall|j: int| p < j < s.len() ==> s[j] != '.',
    ensures
        last_dot(s) == p,
{
    lemma_last_dot(s);
}

/// With no `.` after the first character, `s` has no extension.
proof fn lemma_no_late_dot(s: Seq<char>)
    requires
        forall|j: int| 1 <= j < s.len() ==> s[j] != '.',
    ensures
        last_dot(s) <= 0,
{
    lemma_last_dot(s);
}

/// Taking off numeric suffixes leaves a prefix.
proof fn lemma_strip_numeric_prefix(s: Seq<char>)
    ensures
        strip_numeric_suffixes(s).len() <= s.len(),
        strip_numeric_suffixes(s) == s.take(strip_numeric_suffixes(s).len() as int),
    decreases s.len(),
{
    let k = last_index(s, '-');
    lemma_last_index(s, '-');
    if k >= 0 {
        let tail = s.skip(k + 1);
        if tail.len() > 0 && all_digits(tail) {
            lemma_strip_numeric_prefix(s.take(k));
            let r = strip_numeric_suffixes(s.take(k));
            assert(s.take(k).take(r.len() as int) =~= s.take(r.len() as int));
            return;
        }
    }
    assert(s.take(s.len() as int) =~= s);
}

/// The largest number in use is at least the number of each copy.
proof fn lemma_max_suffix_bounds(names: Seq<Seq<char>>, base: Seq<char>, ext: Option<Seq<char>>, i: int)
    requires
        0 <= i < names.len(),
        numeric_suffix(names[i], base, ext) is Some,
    ensures
        numeric_suffix(names[i], base, ext)->0 <= max_suffix(names, base, ext),
    decreases names.len(),
{
    if i < names.len() - 1 {
        assert(names.drop_last()[i] == names[i]);
        lemma_max_suffix_bounds(names.drop_last(), base, ext, i);
    }
}

/// The stem copies are numbered from: not empty, without `/`, and, when the
/// source has no extension, without a `.` after its first character.
proof fn lemma_duplicate_base_shape(source: Seq<char>)
    ensures
        duplicate_base(source).len() > 0,
        lacks_char(duplicate_base(source), '/'),
        path_extension(source) is None ==> forall|j: int|
            1 <= j < duplicate_base(source).len() ==> duplicate_base(source)[j] != '.',
{
    reveal_strlit("glyph");
    let glyph = "glyph"@;
    lemma_file_name_component(source);
    let st = match path_stem(source) {
        Some(st) => if st.len() > 0 {
            st
        } else {
            glyph
        },
        None => glyph,
    };
    match file_name(source) {
        Some(n) => {
            lemma_last_dot(n);
            assert(path_stem(source) == Some(stem_of(n)));
            assert(stem_of(n).len() > 0);
            assert(st == stem_of(n));
            assert forall|j: int| 0 <= j < st.len() implies st[j] != '/' by {
                assert(st[j] == n[j]);
            }
            if path_extension(source) is None {
                assert forall|j: int| 1 <= j < st.len() implies st[j] != '.' by {
                    assert(st[j] == n[j]);
                }
            }
        },
        None => {
            assert(st == glyph);
        },
    }
    let c = strip_numeric_suffixes(st);
    lemma_strip_numeric_prefix(st);
    let base = duplicate_base(source);
    assert(base == base_stem(st));
    if c.len() > 0 {
        assert(base == c);
        assert forall|j: int| 0 <= j < base.len() implies base[j] == st[j] by {
            assert(base[j] == st.take(c.len() as int)[j]);
        }
    }
}

/// The name of a new copy is numbered past every copy among `names`, so it
/// is not one of them; the count saturating at `u32::MAX` is the one way
/// it can come back taken.
pub proof fn lemma_duplicate_name_is_free(source: Seq<char>, names: Seq<Seq<char>>)
    requires
        max_suffix(names, duplicate_base(source), path_extension(source)) < u32::MAX,
    ensures
        !names.contains(duplicate_file_name(source, names)),
{
    let base = duplicate_base(source);
    let ext = path_extension(source);
    let m = max_suffix(names, base, ext);
    let k: nat = m + 1;
    let digits = decimal(k);
    let stem = base + seq!['-'] + digits;
    let d = duplicate_file_name(source, names);
    lemma_duplicate_base_shape(source);
    crate::keys::lemma_decimal_digits(k);
    crate::keys::lemma_digits_lack(k, '/');
    crate::keys::lemma_digits_lack(k, '.');
    crate::keys::lemma_digits_lack(k, '-');
    lemma_file_name_component(source);
    assert(stem.len() == base.len() + 1 + digits.len());
    assert(stem[base.len() as int] == '-');
    assert forall|j: int| 0 <= j < stem.len() implies stem[j] != '/' by {
        if j > base.len() {
            assert(stem[j] == digits[j - base.len() - 1]);
        } else if j < base.len() {
            assert(stem[j] == base[j]);
        }
    }
    match ext {
        Some(e) => {
            let n = file_name(source)->0;
            lemma_last_dot(n);
            assert(e == n.skip(last_dot(n) + 1));
            assert(d == stem + seq!['.'] + e);
            let p = stem.len() as int;
            assert(d[p] == '.');
            assert forall|j: int| p < j < d.len() implies d[j] != '.' by {
                assert(d[j] == e[j - p - 1]);
                assert(e[j - p - 1] == n[last_dot(n) + 1 + (j - p - 1)]);
            }
            lemma_last_dot_at(d, p);
            assert forall|j: int| 0 <= j < d.len() implies d[j] != '/' by {
                if j < p {
                    assert(d[j] == stem[j]);
                } else if j > p {
                    assert(d[j] == e[j - p - 1]);
                    assert(e[j - p - 1] == n[last_dot(n) + 1 + (j - p - 1)]);
                }
            }
            assert(d[base.len() as int] == '-');
            lemma_component_file_name(d);
            assert(d.take(p) =~= stem);
            assert(d.skip(p + 1) =~= e);
            assert(path_stem(d) == Some(stem));
            assert(path_extension(d) == ext);
        },
        None => {
            assert(d == stem);
            assert forall|j: int| 1 <= j < stem.len() implies stem[j] != '.' by {
                if j > base.len() {
                    assert(stem[j] == digits[j - base.len() - 1]);
                } else if j < base.len() {
                    assert(stem[j] == base[j]);
                }
            }
            lemma_no_late_dot(stem);
            lemma_component_file_name(stem);
            assert(path_stem(d) == Some(stem));
            assert(path_extension(d) == ext);
        },
    }
    assert(occurs_at(stem, base, 0)) by {
        assert(stem.subrange(0, base.len() as int) =~= base);
    }
    assert(stem.skip(base.len() as int + 1) =~= digits);
    assert(unsigned_body(digits) == digits);
    assert(parse_unsigned(digits, u32::MAX as nat) == Some(k));
    assert(stem != base);
    assert(numeric_suffix(d, base, ext) == Some(k));
    if names.contains(d) {
        let i = choose|i: int| 0 <= i < names.len() && names[i] == d;
        lemma_max_suffix_bounds(names, base, ext, i);
    }
}

fn option_chars_equal(a: &Option<Vec<char>>, b: &Option<Vec<char>>) -> (r: bool)
    ensures
        r == ((match *a {
            Some(v) => Some(v@),
            None => None,
        }) == (match *b {
            Some(v) => Some(v@),
            None => None,
        })),
{
    match (a, b) {
        (Some(x), Some(y)) => chars_equal(x, y),
        (None, None) => true,
        _ => false,
    }
}

/// The number of `name` when it is a numbered copy of `base` (see
/// `numeric_suffix`).
fn numeric_suffix_of(name: &str, base: &Vec<char>, ext: &Option<Vec<char>>) -> (r: Option<u32>)
    ensures
        (match r {
            Some(v) => Some(v as nat),
            None => None,
        }) == numeric_suffix(
            name@,
            base@,
            match *ext {
                Some(v) => Some(v@),
                None => None,
            },
        ),
{
    let (stem, cext) = path_stem_and_extension(&chars_of(name));
    if !option_chars_equal(&cext, ext) {
        return None;
    }
    let st = match stem {
        Some(st) => st,
        None => return None,
    };
    if chars_equal(&st, base) {
        return None;
    }
    if !(matches_at(&st, base, 0) && st.len() > base.len() && st[base.len()] == '-') {
        return None;
    }
    let digits = slice_chars(&st, base.len() + 1, st.len());
    proof {
        assert(digits@ =~= st@.skip(base@.len() as int + 1));
    }
    match parse_unsigned_chars(&digits, 0xffff_ffffu64) {
        Some(v) => Some(v as u32),
        None => None,
    }
}

/// The path of the next numbered copy of `source_file_name` in
/// `input_dir`, given the names of the files already there.
pub fn next_incremental_duplicate_destination(input_dir: &str, source_file_name: &str, existing_file_names: &Vec<String>) -> (r: String)
    ensures
        r@ == join_path(input_dir@, duplicate_file_name(source_file_name@, views(existing_file_names@))),
        max_suffix(views(existing_file_names@), duplicate_base(source_file_name@), path_extension(source_file_name@))
            < u32::MAX ==> !views(existing_file_names@).contains(
            duplicate_file_name(source_file_name@, views(existing_file_names@)),
        ),
{
    proof {
        if max_suffix(views(existing_file_names@), duplicate_base(source_file_name@), path_extension(source_file_name@))
            < u32::MAX {
            lemma_duplicate_name_is_free(source_file_name@, views(existing_file_names@));
        }
    }
    let (stem, ext) = path_stem_and_extension(&chars_of(source_file_name));
    let st = match stem {
        Some(st) => if st.len() > 0 {
            st
        } else {
            chars_of("glyph")
        },
        None => chars_of("glyph"),
    };
    let base = base_stem_chars(&st);
    let ghost names = views(existing_file_names@);
    let ghost extv = match &ext {
        Some(v) => Some(v@),
        None => None::<Seq<char>>,
    };
    let mut max: u32 = 0;
    let mut i: usize = 0;
    proof {
        assert(names.take(0) =~= Seq::<Seq<char>>::empty());
    }
    while i < existing_file_names.len()
        invariant
            i <= existing_file_names@.len(),
            names == views(existing_file_names@),
            extv == (match ext {
                Some(v) => Some(v@),
                None => None::<Seq<char>>,
            }),
            max as nat == max_suffix(names.take(i as int), base@, extv),
        decreases existing_file_names@.len() - i,
    {
        let v = numeric_suffix_of(existing_file_names[i].as_str(), &base, &ext);
        proof {
            assert(names.take(i + 1).drop_last() =~= names.take(i as int));
            assert(names.take(i + 1).last() == existing_file_names@[i as int]@);
        }
        match v {
            Some(v) => {
                if v > max {
                    max = v;
                }
            },
            None => {},
        }
        i = i + 1;
    }
    proof {
        assert(names.take(i as int) =~= names);
    }
    let next: u32 = if max == 0xffff_ffffu32 { max } else { max + 1 };
    let mut file = base.clone();
    proof {
        assert(file@ == base@);
    }
    file.push('-');
    push_decimal(&mut file, next as u64);
    match &ext {
        Some(e) => {
            file.push('.');
            push_all(&mut file, e);
        },
        None => {},
    }
    proof {
        assert(file@ =~= duplicate_file_name(source_file_name@, names));
    }
    join_paths(input_dir, string_of(&file).as_str())
}


// ---------------------------------------------------------------------------
// Source keys of paths
// ---------------------------------------------------------------------------
/// What `Path::strip_prefix` leaves of `path` once the leading components
/// of `base` are taken off, as text; `None` when `base`'s components do
/// not begin `path`'s.
pub uninterp spec fn path_without_prefix(path: Seq<char>, base: Seq<char>) -> Option<Seq<char>>;

/// Calls `std::path::Path::strip_prefix` and gives back the rest of the
/// path as text.  The contract names the result after its arguments and
/// states nothing else of it.
#[verifier::external_body]
fn strip_path_prefix(path: &str, base: &str) -> (r: Option<String>)
    ensures
        (match r {
            Some(s) => Some(s@),
            None => None,
        }) == path_without_prefix(path@, base@),
{
    match std::path::Path::new(path).strip_prefix(base) {
        Ok(rest) => Some(rest.to_string_lossy().into_owned()),
        Err(_) => None,
    }
}

/// `s` with every `\` turned into `/`.
pub open spec fn forward_slashes(s: Seq<char>) -> Seq<char> {
    Seq::new(s.len(), |i: int| if s[i] == '\\' { '/' } else { s[i] })
}

/// The source key of a file: its path relative to the input directory
/// (the whole path when it lies elsewhere), with `/` separators.
pub open spec fn source_key_of(source_path: Seq<char>, stripped: Option<Seq<char>>) -> Seq<char> {
    forward_slashes(
        match stripped {
            Some(rest) => rest,
            None => source_path,
        },
    )
}

/// The source key of `source_path` given what is left of it after the
/// input directory (`None` when it does not lie in it).
pub fn source_key_from_stripped(source_path: &str, stripped: Option<String>) -> (r: String)
    ensures
        r@ == source_key_of(
            source_path@,
            match stripped {
                Some(s) => Some(s@),
                None => None,
            },
        ),
{
    let chars = match stripped {
        Some(s) => chars_of(s.as_str()),
        None => chars_of(source_path),
    };
    let mut out: Vec<char> = Vec::new();
    let mut i: usize = 0;
    while i < chars.len()
        invariant
            i <= chars@.len(),
            out@ == forward_slashes(chars@).take(i as int),
        decreases chars@.len() - i,
    {
        out.push(if chars[i] == '\\' { '/' } else { chars[i] });
        proof {
            assert(out@ =~= forward_slashes(chars@).take(i + 1));
        }
        i = i + 1;
    }
    proof {
        assert(out@ =~= forward_slashes(chars@));
    }
    string_of(&out)
}

/// The source key of `source_path` for the input directory `input_dir`.
pub fn source_key_from_input_path(input_dir: &str, source_path: &str) -> (r: String)
    ensures
        r@ == source_key_of(source_path@, path_without_prefix(source_path@, input_dir@)),
{
    let stripped = strip_path_prefix(source_path, input_dir);
    source_key_from_stripped(source_path, stripped)
}

/// Where a source is copied when a grid needs a copy of its own, and the
/// source key of the copy.
#[derive(Debug, Clone)]
pub struct DuplicatePlan {
    pub source_path: String,
    pub duplicate_path: String,
    pub source_key: String,
}

pub open spec fn invalid_source_message(source_key: Seq<char>) -> Seq<char> {
    "invalid source file path for "@ + source_key
}

/// Plans the copy of the source `source_key` of `input_dir` made when a
/// grid conflicts with its current use, given the names of the files in
/// `input_dir`; the copy itself is made by the caller.  A key whose path
/// has no file name is refused.
pub fn duplicate_source_key_for_grid_conflict(input_dir: &str, source_key: &str, existing_file_names: &Vec<String>) -> (r: Result<DuplicatePlan, String>)
    ensures
        file_name(join_path(input_dir@, source_key@)) is None <==> r is Err,
        r matches Err(m) ==> m@ == invalid_source_message(source_key@),
        r matches Ok(plan) ==> {
            let source_path = join_path(input_dir@, source_key@);
            let name = file_name(source_path)->0;
            let duplicate = join_path(input_dir@, duplicate_file_name(name, views(existing_file_names@)));
            &&& plan.source_path@ == source_path
            &&& plan.duplicate_path@ == duplicate
            &&& plan.source_key@ == source_key_of(duplicate, path_without_prefix(duplicate, input_dir@))
        },
{
    let source_path = join_paths(input_dir, source_key);
    let name = match file_name_of(&chars_of(source_path.as_str())) {
        Some(n) => n,
        None => {
            let mut m: Vec<char> = Vec::new();
            push_str(&mut m, "invalid source file path for ");
            push_str(&mut m, source_key);
            return Err(string_of(&m));
        },
    };
    let duplicate_path = next_incremental_duplicate_destination(
        input_dir,
        string_of(&name).as_str(),
        existing_file_names,
    );
    let key = source_key_from_input_path(input_dir, duplicate_path.as_str());
    Ok(DuplicatePlan { source_path, duplicate_path, source_key: key })
}

} // verus!
