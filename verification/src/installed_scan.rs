//! One entry of the "Installed petiglyph fonts" list of the Home panel,
//! assembled from what was read for an installed font file: the sample of
//! its install metadata or, without one, the characters found in the font.
use vstd::prelude::*;
use crate::font_blocks::{grid_parts, parts, parts_seq, regroup_installed_sample_blocks, regrouped, standard_parts};
use crate::installed::{installed_font_blocks_without_metadata, unknown_block_label};
use crate::model::{InstalledFontAnimationPreview, InstalledFontBlock};

verus! {

/// An installed font as the Home panel lists it.
#[derive(Debug, Clone)]
pub struct InstalledFontSample {
    pub file_name: String,
    pub path: String,
    pub blocks: Vec<InstalledFontBlock>,
    pub animation_rows: Vec<String>,
    pub animation_previews: Vec<InstalledFontAnimationPreview>,
    pub animation_exports: Vec<String>,
}

/// What the install metadata of a font gives its entry: sample blocks,
/// animation rows, animation previews and animation exports.
pub struct MetadataSample {
    pub blocks: Vec<InstalledFontBlock>,
    pub animation_rows: Vec<String>,
    pub animation_previews: Vec<InstalledFontAnimationPreview>,
    pub animation_exports: Vec<String>,
}

proof fn lemma_standard_parts_depend_on_parts(a: Seq<InstalledFontBlock>, b: Seq<InstalledFontBlock>)
    requires
        parts_seq(a) == parts_seq(b),
    ensures
        standard_parts(a) == standard_parts(b),
        grid_parts(a) == grid_parts(b),
    decreases a.len(),
{
    assert(a.len() == parts_seq(a).len());
    if a.len() > 0 {
        assert(parts_seq(a.drop_last()) =~= parts_seq(b.drop_last())) by {
            assert forall|i: int| 0 <= i < a.len() - 1 implies parts(a.drop_last()[i]) == parts(b.drop_last()[i]) by {
                assert(parts_seq(a)[i] == parts_seq(b)[i]);
            }
        }
        lemma_standard_parts_depend_on_parts(a.drop_last(), b.drop_last());
        assert(parts_seq(a)[a.len() - 1] == parts_seq(b)[a.len() - 1]);
    }
}

/// How sample blocks are regrouped depends on their labels, texts and
/// exports alone.
pub proof fn lemma_regrouped_depends_on_parts(a: Seq<InstalledFontBlock>, b: Seq<InstalledFontBlock>)
    requires
        parts_seq(a) == parts_seq(b),
    ensures
        regrouped(a) == regrouped(b),
{
    lemma_standard_parts_depend_on_parts(a, b);
}

/// The block of a font with no install metadata: the characters found in
/// the font (none when nothing was found), labelled as unknown.
pub open spec fn fallback_parts(sample: Option<Seq<char>>) -> Seq<(Seq<char>, Seq<char>, Seq<char>)> {
    let text = match sample {
        Some(s) => s,
        None => Seq::empty(),
    };
    seq![(unknown_block_label(text), text, text)]
}

/// The entry of an installed font: named after its file (`unknown.ttf`
/// when the name cannot be read), with the regrouped blocks of its install
/// metadata, or, without metadata, the block of the characters found in the
/// font.  A font with no block and no animation is not listed.
pub fn installed_font_sample(
    path: String,
    file_name: Option<String>,
    metadata: Option<MetadataSample>,
    font_sample: Option<(String, bool)>,
) -> (r: Option<InstalledFontSample>)
    ensures
        (match metadata {
            Some(m) => {
                &&& r is None <==> (regrouped(m.blocks@).len() == 0 && m.animation_rows@.len() == 0)
                &&& r matches Some(s) ==> {
                    &&& parts_seq(s.blocks@) == regrouped(m.blocks@)
                    &&& s.animation_rows@ == m.animation_rows@
                    &&& s.animation_previews@ == m.animation_previews@
                    &&& s.animation_exports@ == m.animation_exports@
                }
            },
            None => {
                let fallback = fallback_parts(
                    match font_sample {
                        Some((s, _)) => Some(s@),
                        None => None,
                    },
                );
                exists|raw: Seq<InstalledFontBlock>| {
                    &&& #[trigger] parts_seq(raw) == fallback
                    &&& r is None <==> regrouped(raw).len() == 0
                    &&& r matches Some(s) ==> {
                        &&& parts_seq(s.blocks@) == regrouped(raw)
                        &&& s.animation_rows@.len() == 0
                        &&& s.animation_previews@.len() == 0
                        &&& s.animation_exports@.len() == 0
                    }
                }
            },
        }),
        r matches Some(s) ==> s.path@ == path@ && s.file_name@ == (match file_name {
            Some(n) => n@,
            None => "unknown.ttf"@,
        }),
{
    let ghost text_view = match &font_sample {
        Some((s, _)) => s@,
        None => Seq::<char>::empty(),
    };
    let ghost has_metadata = (&metadata) is Some;
    let name = match file_name {
        Some(n) => n,
        None => "unknown.ttf".to_owned(),
    };
    let (raw, rows, previews, exports) = match metadata {
        Some(m) => (m.blocks, m.animation_rows, m.animation_previews, m.animation_exports),
        None => {
            let text = match font_sample {
                Some((s, _)) => s,
                None => String::new(),
            };
            let raw = installed_font_blocks_without_metadata(vec![text]);
            (raw, Vec::new(), Vec::new(), Vec::new())
        },
    };
    let ghost raw_view = raw@;
    proof {
        if !has_metadata {
            assert(parts_seq(raw_view) =~= seq![(unknown_block_label(text_view), text_view, text_view)]);
        }
    }
    let blocks = regroup_installed_sample_blocks(raw);
    if blocks.len() == 0 && rows.len() == 0 {
        proof {
            assert(parts_seq(blocks@).len() == 0);
        }
        return None;
    }
    proof {
        assert(parts_seq(blocks@).len() == blocks@.len());
    }
    Some(InstalledFontSample {
        file_name: name,
        path,
        blocks,
        animation_rows: rows,
        animation_previews: previews,
        animation_exports: exports,
    })
}

} // verus!
