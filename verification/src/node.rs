//! The render-graph step that copies every channel's texture into its
//! staging buffer.

use vstd::prelude::*;
use crate::export::GpuImageExport;

verus! {

/// The label of the copy step in the render graph.
#[derive(Debug, Hash, PartialEq, Eq, Clone, Copy)]
pub struct NodeName;

/// The copy step itself.
pub struct ImageExportNode;

/// How the rows of a copied texture lie in the buffer.
#[derive(Clone, Copy, Debug)]
pub struct ImageDataLayout {
    pub offset: u64,
    pub bytes_per_row: Option<u32>,
    pub rows_per_image: Option<u32>,
}

/// A channel as the copy step finds it: its strides, and whether its source
/// texture can be resolved in this frame.
#[derive(Clone, Copy, Debug)]
pub struct ExportSource {
    pub export: GpuImageExport,
    pub texture_available: bool,
}

/// One copy of a texture into a staging buffer: the index of the channel
/// among the sources, the layout of the rows in the buffer, and the size of
/// the copied area in pixels.
#[derive(Clone, Copy, Debug)]
pub struct TextureCopy {
    pub source: usize,
    pub layout: ImageDataLayout,
    pub copy_size: (u32, u32),
}

/// The copy of the texture of the channel at index `source`: the rows start
/// at the beginning of the buffer, one padded stride apart, as one image.
pub open spec fn copy_of(source: int, export: GpuImageExport) -> TextureCopy {
    TextureCopy {
        source: source as usize,
        layout: ImageDataLayout {
            offset: 0,
            bytes_per_row: Some(export.padded_bytes_per_row),
            rows_per_image: None,
        },
        copy_size: export.source_size,
    }
}

/// The copies of a frame for the first `upto` sources: one for each source
/// whose texture can be resolved, in the order of the sources.
pub open spec fn planned_copies(sources: Seq<ExportSource>, upto: int) -> Seq<TextureCopy>
    decreases upto,
{
    if upto <= 0 {
        Seq::empty()
    } else {
        let earlier = planned_copies(sources, upto - 1);
        if sources[upto - 1].texture_available {
            earlier.push(copy_of(upto - 1, sources[upto - 1].export))
        } else {
            earlier
        }
    }
}

impl ImageExportNode {
    /// The copies that the step records in a frame. A channel whose texture
    /// cannot be resolved is passed over for that frame.
    pub fn run(&self, sources: &Vec<ExportSource>) -> (copies: Vec<TextureCopy>)
        ensures
            copies@ == planned_copies(sources@, sources@.len() as int),
    {
        let mut copies: Vec<TextureCopy> = Vec::new();
        let mut i: usize = 0;
        while i < sources.len()
            invariant
                i <= sources@.len(),
                copies@ == planned_copies(sources@, i as int),
            decreases sources@.len() - i,
        {
            if sources[i].texture_available {
                copies.push(
                    TextureCopy {
                        source: i,
                        layout: ImageDataLayout {
                            offset: 0,
                            bytes_per_row: Some(sources[i].export.padded_bytes_per_row),
                            rows_per_image: None,
                        },
                        copy_size: sources[i].export.source_size,
                    },
                );
            }
            i = i + 1;
        }
        copies
    }
}

/// Every planned copy belongs to a source whose texture can be resolved,
/// and every such source has its copy.
pub proof fn lemma_planned_copies(sources: Seq<ExportSource>, upto: int)
    requires
        0 <= upto <= sources.len() <= usize::MAX,
    ensures
        planned_copies(sources, upto).len() <= upto,
        forall|c: int|
            0 <= c < planned_copies(sources, upto).len() ==> {
                let copy = #[trigger] planned_copies(sources, upto)[c];
                &&& 0 <= copy.source < upto
                &&& sources[copy.source as int].texture_available
                &&& copy == copy_of(copy.source as int, sources[copy.source as int].export)
            },
        forall|s: int|
            0 <= s < upto && (#[trigger] sources[s]).texture_available ==> planned_copies(
                sources,
                upto,
            ).contains(copy_of(s, sources[s].export)),
    decreases upto,
{
    if upto > 0 {
        lemma_planned_copies(sources, upto - 1);
        let earlier = planned_copies(sources, upto - 1);
        let all = planned_copies(sources, upto);
        assert forall|s: int| 0 <= s < upto && (#[trigger] sources[s]).texture_available implies
            all.contains(copy_of(s, sources[s].export)) by {
            if s < upto - 1 {
                let c = choose|c: int|
                    0 <= c < earlier.len() && earlier[c] == copy_of(s, sources[s].export);
                assert(all[c] == copy_of(s, sources[s].export));
            } else {
                assert(all[all.len() - 1] == copy_of(s, sources[s].export));
            }
        }
    }
}

} // verus!
