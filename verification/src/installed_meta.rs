//! What the install metadata of a font says about its sample: the glyph
//! map of the project, the animations recorded at install time, and the
//! rows, previews and exports of the Home panel built from them.
use vstd::prelude::*;
use crate::codepoints::{frame_block, installed_animation_blocks_for_definition, lookup, views, SourceCodepoints};
use crate::controls::{
    grayscale_summary, grayscale_summary_from_processing, installed_animation_threshold_summary_label,
    threshold_summary,
};
use crate::font_blocks::{
    described_block, installed_font_blocks_with_details, parts, InstalledStaticBlockDetails,
    InstalledStaticGlyphEntry,
};
use crate::installed::{join_with, prune_static_sample_blocks, pruned_blocks, push_joined};
use crate::keys::{animation_frame_parent_source, codepoint_char, format_codepoint_char, frame_parent};
use crate::model::{
    AnimationDef, AnimationType, ImportProcessingOptions, InstalledFontAnimationPreview, InstalledFontBlock,
};
use crate::text::{chars_of, decimal, push_decimal, push_str, string_of, trim, trim_chars};

verus! {

/// One entry of a project's `glyph-map.json`.
#[derive(Debug, Clone)]
pub struct MappingEntry {
    pub codepoint: String,
    pub source_file: String,
    pub glyph_name: String,
}

/// The value stored for `key` in a table of unique keys.
pub open spec fn override_of(pairs: Seq<(String, u8)>, key: Seq<char>) -> Option<u8>
    decreases pairs.len(),
{
    if pairs.len() == 0 {
        None
    } else if pairs[0].0@ == key {
        Some(pairs[0].1)
    } else {
        override_of(pairs.skip(1), key)
    }
}

/// The threshold a source was built with: its parent's override, else the
/// project's threshold.
pub open spec fn source_threshold(overrides: Seq<(String, u8)>, base: u8, source: Seq<char>) -> u8 {
    match override_of(overrides, frame_parent(source)) {
        Some(t) => t,
        None => base,
    }
}

/// The last mapping whose codepoint is the character `c`.
pub open spec fn mapping_for(ms: Seq<MappingEntry>, c: char) -> Option<MappingEntry>
    decreases ms.len(),
{
    if ms.len() == 0 {
        None
    } else {
        match mapping_for(ms.skip(1), c) {
            Some(m) => Some(m),
            None => if codepoint_char(ms[0].codepoint@) == Some(c) {
                Some(ms[0])
            } else {
                None
            },
        }
    }
}

/// The entry of `c` describes mapping `m`.
pub open spec fn entry_describes(e: InstalledStaticGlyphEntry, m: MappingEntry, overrides: Seq<(String, u8)>, base: u8) -> bool {
    &&& e.glyph_name@ == m.glyph_name@
    &&& e.source_file@ == m.source_file@
    &&& e.threshold == source_threshold(overrides, base, m.source_file@)
}

pub(crate) fn override_value(pairs: &Vec<(String, u8)>, key: &str) -> (r: Option<u8>)
    ensures
        r == override_of(pairs@, key@),
{
    let mut i: usize = 0;
    proof {
        assert(pairs@.skip(0) =~= pairs@);
    }
    while i < pairs.len()
        invariant
            i <= pairs@.len(),
            override_of(pairs@, key@) == override_of(pairs@.skip(i as int), key@),
        decreases pairs@.len() - i,
    {
        if crate::text::str_equal(pairs[i].0.as_str(), key) {
            proof {
                assert(pairs@.skip(i as int)[0] == pairs@[i as int]);
            }
            return Some(pairs[i].1);
        }
        proof {
            assert(pairs@.skip(i as int).skip(1) =~= pairs@.skip(i + 1));
        }
        i = i + 1;
    }
    None
}

proof fn lemma_lookup_push(es: Seq<(char, InstalledStaticGlyphEntry)>, x: (char, InstalledStaticGlyphEntry), c: char)
    ensures
        crate::font_blocks::lookup(es.push(x), c) == (match crate::font_blocks::lookup(es, c) {
            Some(e) => Some(e),
            None => if x.0 == c {
                Some(x.1)
            } else {
                None
            },
        }),
    decreases es.len(),
{
    let p = es.push(x);
    if es.len() > 0 {
        assert(p[0] == es[0]);
        assert(p.skip(1) =~= es.skip(1).push(x));
        lemma_lookup_push(es.skip(1), x, c);
        if es[0].0 == c {
            assert(crate::font_blocks::lookup(p, c) == Some(es[0].1));
            assert(crate::font_blocks::lookup(es, c) == Some(es[0].1));
        } else {
            assert(crate::font_blocks::lookup(p, c) == crate::font_blocks::lookup(p.skip(1), c));
            assert(crate::font_blocks::lookup(es, c) == crate::font_blocks::lookup(es.skip(1), c));
        }
    } else {
        assert(es.push(x)[0] == x);
        assert(es.push(x).skip(1) =~= Seq::<(char, InstalledStaticGlyphEntry)>::empty());
    }
}

/// The install details of a project's glyphs: per glyph character, the
/// glyph name, source and threshold of the last mapping of that character
/// (mappings whose codepoint is not a character are left out).
pub fn static_block_details_from_mappings(mappings: &Vec<MappingEntry>, threshold_overrides: &Vec<(String, u8)>, base_threshold: u8) -> (r: InstalledStaticBlockDetails)
    ensures
        forall|c: char| #![trigger crate::font_blocks::lookup(r.entries_by_char@, c)]
            match (crate::font_blocks::lookup(r.entries_by_char@, c), mapping_for(mappings@, c)) {
                (Some(e), Some(m)) => entry_describes(e, m, threshold_overrides@, base_threshold),
                (None, None) => true,
                _ => false,
            },
{
    let mut entries: Vec<(char, InstalledStaticGlyphEntry)> = Vec::new();
    let mut i = mappings.len();
    proof {
        assert(mappings@.skip(i as int) =~= Seq::<MappingEntry>::empty());
    }
    while i > 0
        invariant
            i <= mappings@.len(),
            forall|c: char| #![trigger crate::font_blocks::lookup(entries@, c)]
                match (crate::font_blocks::lookup(entries@, c), mapping_for(mappings@.skip(i as int), c)) {
                    (Some(e), Some(m)) => entry_describes(e, m, threshold_overrides@, base_threshold),
                    (None, None) => true,
                    _ => false,
                },
        decreases i,
    {
        let m = &mappings[i - 1];
        let ghost rest = mappings@.skip(i as int);
        let ghost here = mappings@.skip(i - 1);
        proof {
            assert(here.skip(1) =~= rest);
            assert(here[0] == mappings@[i - 1]);
        }
        match format_codepoint_char(m.codepoint.as_str()) {
            Some(ch) => {
                let parent = animation_frame_parent_source(m.source_file.as_str());
                let threshold = match override_value(threshold_overrides, parent.as_str()) {
                    Some(t) => t,
                    None => base_threshold,
                };
                let entry = InstalledStaticGlyphEntry {
                    glyph_name: m.glyph_name.clone(),
                    source_file: m.source_file.clone(),
                    threshold,
                };
                let ghost before = entries@;
                entries.push((ch, entry));
                proof {
                    assert forall|c: char| #![trigger crate::font_blocks::lookup(entries@, c)]
                        match (crate::font_blocks::lookup(entries@, c), mapping_for(here, c)) {
                            (Some(e), Some(mm)) => entry_describes(e, mm, threshold_overrides@, base_threshold),
                            (None, None) => true,
                            _ => false,
                        } by {
                        lemma_lookup_push(before, (ch, entry), c);
                        assert(crate::font_blocks::lookup(before, c) == crate::font_blocks::lookup(before, c));
                    }
                }
            },
            None => {
                proof {
                    assert forall|c: char| #![trigger crate::font_blocks::lookup(entries@, c)]
                        match (crate::font_blocks::lookup(entries@, c), mapping_for(here, c)) {
                            (Some(e), Some(mm)) => entry_describes(e, mm, threshold_overrides@, base_threshold),
                            (None, None) => true,
                            _ => false,
                        } by {
                        assert(crate::font_blocks::lookup(entries@, c) == crate::font_blocks::lookup(entries@, c));
                    }
                }
            },
        }
        i = i - 1;
    }
    proof {
        assert(mappings@.skip(0) =~= mappings@);
    }
    InstalledStaticBlockDetails { entries_by_char: entries }
}

/// The codepoint label of each source of the glyph map (the last mapping
/// of a source counts).
pub fn mappings_by_source(mappings: &Vec<MappingEntry>) -> (r: SourceCodepoints)
    ensures
        r.wf(),
        forall|k: Seq<char>| #[trigger] r.get(k) == source_label(mappings@, k),
{
    let mut pairs: Vec<(String, String)> = Vec::new();
    let mut i: usize = 0;
    while i < mappings.len()
        invariant
            i <= mappings@.len(),
            pairs@.len() == i,
            forall|j: int| 0 <= j < i ==> #[trigger] pairs@[j].0@ == mappings@[j].source_file@ && pairs@[j].1@
                == mappings@[j].codepoint@,
        decreases mappings@.len() - i,
    {
        let a = mappings[i].source_file.clone();
        let b = mappings[i].codepoint.clone();
        let ghost before = pairs@;
        pairs.push((a, b));
        proof {
            assert(pairs@ == before.push((a, b)));
            assert forall|j: int| 0 <= j < i + 1 implies #[trigger] pairs@[j].0@ == mappings@[j].source_file@ && pairs@[j].1@
                == mappings@[j].codepoint@ by {
                if j < i {
                    assert(pairs@[j] == before[j]);
                }
            }
        }
        i = i + 1;
    }
    let ghost pv = pairs@;
    let r = SourceCodepoints::from_pairs(pairs);
    proof {
        assert forall|k: Seq<char>| #[trigger] r.get(k) == source_label(mappings@, k) by {
            lemma_source_label(pv, mappings@, k);
        }
    }
    r
}

/// The codepoint of the last mapping of source `k`.
pub open spec fn source_label(ms: Seq<MappingEntry>, k: Seq<char>) -> Option<Seq<char>>
    decreases ms.len(),
{
    if ms.len() == 0 {
        None
    } else if ms.last().source_file@ == k {
        Some(ms.last().codepoint@)
    } else {
        source_label(ms.drop_last(), k)
    }
}

proof fn lemma_source_label(pairs: Seq<(String, String)>, ms: Seq<MappingEntry>, k: Seq<char>)
    requires
        pairs.len() == ms.len(),
        forall|j: int| 0 <= j < ms.len() ==> #[trigger] pairs[j].0@ == ms[j].source_file@ && pairs[j].1@ == ms[j].codepoint@,
    ensures
        lookup(pairs, k) == source_label(ms, k),
    decreases ms.len(),
{
    if ms.len() > 0 {
        let n = ms.len() - 1;
        assert(pairs[n].0@ == ms[n].source_file@ && pairs[n].1@ == ms[n].codepoint@);
        lemma_source_label(pairs.drop_last(), ms.drop_last(), k);
    }
}

/// The frame blocks of every animation of a project, by animation name.
pub fn animation_blocks_by_name(animations: &Vec<AnimationDef>, by_source: &SourceCodepoints) -> (r: Vec<(String, Vec<String>)>)
    ensures
        r@.len() == animations@.len(),
        forall|i: int| 0 <= i < r@.len() ==> {
            &&& #[trigger] r@[i].0@ == animations@[i].name@
            &&& views(r@[i].1@) == Seq::new(
                animations@[i].frames@.len(),
                |j: int| frame_block(*by_source, animations@[i], animations@[i].frames@[j]@),
            )
        },
{
    let mut out: Vec<(String, Vec<String>)> = Vec::new();
    let mut i: usize = 0;
    while i < animations.len()
        invariant
            i <= animations@.len(),
            out@.len() == i,
            forall|q: int| 0 <= q < i ==> {
                &&& #[trigger] out@[q].0@ == animations@[q].name@
                &&& views(out@[q].1@) == Seq::new(
                    animations@[q].frames@.len(),
                    |j: int| frame_block(*by_source, animations@[q], animations@[q].frames@[j]@),
                )
            },
        decreases animations@.len() - i,
    {
        let blocks = installed_animation_blocks_for_definition(&animations[i], by_source);
        proof {
            assert(views(blocks@) =~= Seq::new(
                animations@[i as int].frames@.len(),
                |j: int| frame_block(*by_source, animations@[i as int], animations@[i as int].frames@[j]@),
            ));
        }
        let name = animations[i].name.clone();
        let ghost before = out@;
        let ghost bv = views(blocks@);
        out.push((name, blocks));
        proof {
            assert(out@ == before.push((name, blocks)));
            assert forall|q: int| 0 <= q < i + 1 implies {
                &&& #[trigger] out@[q].0@ == animations@[q].name@
                &&& views(out@[q].1@) == Seq::new(
                    animations@[q].frames@.len(),
                    |j: int| frame_block(*by_source, animations@[q], animations@[q].frames@[j]@),
                )
            } by {
                if q < i {
                    assert(out@[q] == before[q]);
                } else {
                    assert(out@[q].1@ == blocks@);
                    assert(views(out@[q].1@) == bv);
                }
            }
        }
        i = i + 1;
    }
    out
}

// ---------------------------------------------------------------------------
// Animation snapshots
// ---------------------------------------------------------------------------
/// An animation as recorded when its font was installed.
#[derive(Debug, Clone)]
pub struct InstalledAnimationSnapshot {
    pub name: String,
    pub animation_type: AnimationType,
    pub fps: u8,
    pub grayscale_processing: Option<ImportProcessingOptions>,
    pub uniform_threshold: Option<u8>,
    pub variable_threshold: bool,
    pub frame_blocks: Vec<String>,
}

/// The frame blocks resolved from the project for the animation `name`
/// (the last entry of that name).
pub open spec fn resolved_frames(resolved: Seq<(String, Vec<String>)>, name: Seq<char>) -> Option<Seq<Seq<char>>>
    decreases resolved.len(),
{
    if resolved.len() == 0 {
        None
    } else if resolved.last().0@ == name {
        Some(views(resolved.last().1@))
    } else {
        resolved_frames(resolved.drop_last(), name)
    }
}

/// The frames shown for a snapshot: those resolved from the project when
/// there are any, else the ones recorded at install time.
pub open spec fn snapshot_frames(resolved: Seq<(String, Vec<String>)>, s: InstalledAnimationSnapshot) -> Seq<Seq<char>> {
    match resolved_frames(resolved, s.name@) {
        Some(b) => if b.len() > 0 {
            b
        } else {
            views(s.frame_blocks@)
        },
        None => views(s.frame_blocks@),
    }
}

pub open spec fn type_label(t: AnimationType) -> Seq<char> {
    match t {
        AnimationType::Standard => "standard"@,
        AnimationType::Grid => "grid"@,
    }
}

/// `Animation: <name> (<type>, <fps> fps, <n> frames, <gray>, th <th>)`.
pub open spec fn animation_row(s: InstalledAnimationSnapshot, frames: Seq<Seq<char>>) -> Seq<char> {
    "Animation: "@ + s.name@ + " ("@ + type_label(s.animation_type) + ", "@ + decimal(s.fps as nat) + " fps, "@
        + decimal(frames.len()) + " frames, "@ + grayscale_summary(s.grayscale_processing) + ", th "@
        + threshold_summary(s.uniform_threshold, s.variable_threshold) + ")"@
}

/// The text copied for an animation: its settings, then its frames.
pub open spec fn animation_export(s: InstalledAnimationSnapshot, frames: Seq<Seq<char>>) -> Seq<char> {
    "name: "@ + s.name@ + "\ntype: "@ + type_label(s.animation_type) + "\nfps: "@ + decimal(s.fps as nat)
        + "\ngrayscale: "@ + grayscale_summary(s.grayscale_processing) + "\nthreshold: "@ + threshold_summary(
        s.uniform_threshold,
        s.variable_threshold,
    ) + "\n"@ + (if frames.len() > 0 {
        "\n"@ + join_with(frames, "\n\n"@)
    } else {
        seq![]
    })
}

/// The trimmed frames of all snapshots.
pub open spec fn all_trimmed_frames(resolved: Seq<(String, Vec<String>)>, snaps: Seq<InstalledAnimationSnapshot>) -> Seq<Seq<char>>
    decreases snaps.len(),
{
    if snaps.len() == 0 {
        seq![]
    } else {
        let f = snapshot_frames(resolved, snaps.last());
        all_trimmed_frames(resolved, snaps.drop_last()) + Seq::new(f.len(), |i: int| trim(f[i]))
    }
}

fn type_label_of(t: AnimationType) -> (r: &'static str)
    ensures
        r@ == type_label(t),
{
    match t {
        AnimationType::Standard => "standard",
        AnimationType::Grid => "grid",
    }
}

fn frames_for(resolved: &Vec<(String, Vec<String>)>, s: &InstalledAnimationSnapshot) -> (r: Vec<String>)
    ensures
        views(r@) == snapshot_frames(resolved@, *s),
{
    let mut i = resolved.len();
    proof {
        assert(resolved@.take(i as int) =~= resolved@);
    }
    while i > 0
        invariant
            i <= resolved@.len(),
            resolved_frames(resolved@, s.name@) == resolved_frames(resolved@.take(i as int), s.name@),
        decreases i,
    {
        proof {
            assert(resolved@.take(i as int).drop_last() =~= resolved@.take(i - 1));
            assert(resolved@.take(i as int).last() == resolved@[i - 1]);
        }
        if crate::text::str_equal(resolved[i - 1].0.as_str(), s.name.as_str()) {
            if resolved[i - 1].1.len() > 0 {
                return resolved[i - 1].1.clone();
            }
            return s.frame_blocks.clone();
        }
        i = i - 1;
    }
    s.frame_blocks.clone()
}

/// The sample of an installed font whose metadata was found: the static
/// blocks without the animation frames, labelled from the install details;
/// and per recorded animation, its row, its preview and its export.
pub fn installed_font_metadata_sample(
    snapshots: &Vec<InstalledAnimationSnapshot>,
    resolved_blocks: &Vec<(String, Vec<String>)>,
    sample: Vec<String>,
    details: &Option<InstalledStaticBlockDetails>,
) -> (r: (Vec<InstalledFontBlock>, Vec<String>, Vec<InstalledFontAnimationPreview>, Vec<String>))
    ensures
        ({
            let pruned = pruned_blocks(views(sample@), all_trimmed_frames(resolved_blocks@, snapshots@));
            Seq::new(r.0@.len(), |i: int| parts(r.0@[i])) == Seq::new(
                pruned.len(),
                |i: int| described_block(pruned[i], *details),
            )
        }),
        r.1@.len() == snapshots@.len(),
        r.2@.len() == snapshots@.len(),
        r.3@.len() == snapshots@.len(),
        forall|i: int| 0 <= i < snapshots@.len() ==> #[trigger] r.1@[i]@ == animation_row(snapshots@[i], snapshot_frames(resolved_blocks@, snapshots@[i])),
        forall|i: int| 0 <= i < snapshots@.len() ==> #[trigger] r.2@[i].fps == snapshots@[i].fps,
        forall|i: int| 0 <= i < snapshots@.len() ==> views(#[trigger] r.2@[i].frame_blocks@) == snapshot_frames(resolved_blocks@, snapshots@[i]),
        forall|i: int| 0 <= i < snapshots@.len() ==> #[trigger] r.3@[i]@ == animation_export(snapshots@[i], snapshot_frames(resolved_blocks@, snapshots@[i])),
{
    let mut rows: Vec<String> = Vec::new();
    let mut previews: Vec<InstalledFontAnimationPreview> = Vec::new();
    let mut exports: Vec<String> = Vec::new();
    let mut all_frames: Vec<String> = Vec::new();
    let mut i: usize = 0;
    proof {
        assert(snapshots@.take(0) =~= Seq::<InstalledAnimationSnapshot>::empty());
        assert(views(all_frames@) =~= Seq::<Seq<char>>::empty());
    }
    while i < snapshots.len()
        invariant
            i <= snapshots@.len(),
            rows@.len() == i,
            previews@.len() == i,
            exports@.len() == i,
            views(all_frames@) == all_trimmed_frames(resolved_blocks@, snapshots@.take(i as int)),
            forall|q: int| 0 <= q < i ==> #[trigger] rows@[q]@ == animation_row(snapshots@[q], snapshot_frames(resolved_blocks@, snapshots@[q])),
            forall|q: int| 0 <= q < i ==> #[trigger] previews@[q].fps == snapshots@[q].fps,
            forall|q: int| 0 <= q < i ==> views(#[trigger] previews@[q].frame_blocks@) == snapshot_frames(resolved_blocks@, snapshots@[q]),
            forall|q: int| 0 <= q < i ==> #[trigger] exports@[q]@ == animation_export(snapshots@[q], snapshot_frames(resolved_blocks@, snapshots@[q])),
        decreases snapshots@.len() - i,
    {
        let s = &snapshots[i];
        let frames = frames_for(resolved_blocks, s);
        let ghost f = views(frames@);
        let gray = grayscale_summary_from_processing(s.grayscale_processing);
        let th = installed_animation_threshold_summary_label(s.uniform_threshold, s.variable_threshold);
        let kind = type_label_of(s.animation_type);
        // frames seen
        let ghost before_frames = views(all_frames@);
        let mut k: usize = 0;
        while k < frames.len()
            invariant
                k <= frames@.len(),
                f == views(frames@),
                views(all_frames@) == before_frames + Seq::new(k as nat, |q: int| trim(f[q])),
            decreases frames@.len() - k,
        {
            let t = string_of(&trim_chars(&chars_of(frames[k].as_str())));
            let ghost ab = all_frames@;
            all_frames.push(t);
            proof {
                assert(all_frames@ == ab.push(t));
                assert(views(all_frames@) =~= views(ab).push(t@));
                assert(views(all_frames@) =~= before_frames + Seq::new((k + 1) as nat, |q: int| trim(f[q])));
            }
            k = k + 1;
        }
        proof {
            let t = snapshots@.take(i + 1);
            assert(t.drop_last() =~= snapshots@.take(i as int));
            assert(t.last() == snapshots@[i as int]);
        }
        // row
        let mut row: Vec<char> = Vec::new();
        push_str(&mut row, "Animation: ");
        push_str(&mut row, s.name.as_str());
        push_str(&mut row, " (");
        push_str(&mut row, kind);
        push_str(&mut row, ", ");
        push_decimal(&mut row, s.fps as u64);
        push_str(&mut row, " fps, ");
        push_decimal(&mut row, frames.len() as u64);
        push_str(&mut row, " frames, ");
        push_str(&mut row, gray.as_str());
        push_str(&mut row, ", th ");
        push_str(&mut row, th.as_str());
        push_str(&mut row, ")");
        proof {
            assert(row@ =~= animation_row(*s, f));
        }
        // export
        let mut export: Vec<char> = Vec::new();
        push_str(&mut export, "name: ");
        push_str(&mut export, s.name.as_str());
        push_str(&mut export, "\ntype: ");
        push_str(&mut export, kind);
        push_str(&mut export, "\nfps: ");
        push_decimal(&mut export, s.fps as u64);
        push_str(&mut export, "\ngrayscale: ");
        push_str(&mut export, gray.as_str());
        push_str(&mut export, "\nthreshold: ");
        push_str(&mut export, th.as_str());
        push_str(&mut export, "\n");
        if frames.len() > 0 {
            push_str(&mut export, "\n");
            push_joined(&mut export, &frames, "\n\n");
        }
        proof {
            assert(export@ =~= animation_export(*s, f));
        }
        rows.push(string_of(&row));
        exports.push(string_of(&export));
        previews.push(InstalledFontAnimationPreview { fps: s.fps, frame_blocks: frames });
        i = i + 1;
    }
    proof {
        assert(snapshots@.take(i as int) =~= snapshots@);
    }
    let pruned = prune_static_sample_blocks(sample, &all_frames);
    let ghost pv = views(pruned@);
    let blocks = installed_font_blocks_with_details(pruned, details);
    proof {
        assert(Seq::new(blocks@.len(), |q: int| parts(blocks@[q])) =~= Seq::new(
            pv.len(),
            |q: int| described_block(pv[q], *details),
        ));
    }
    (blocks, rows, previews, exports)
}

} // verus!
