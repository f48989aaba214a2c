//! The data model: opaque resource handles, buffer ranges, and the tagged
//! assignment value that describes one binding slot's content.

use vstd::prelude::*;

verus! {

/// Opaque handle to a texture owned by an external resource table.
#[derive(Clone, Copy, PartialEq, Eq, Hash, Debug)]
pub struct TextureId(pub u64);

/// Opaque handle to a sampler owned by an external resource table.
#[derive(Clone, Copy, PartialEq, Eq, Hash, Debug)]
pub struct SamplerId(pub u64);

/// Opaque handle to a buffer owned by an external resource table.
#[derive(Clone, Copy, PartialEq, Eq, Hash, Debug)]
pub struct BufferId(pub u64);

/// Half-open byte range `[start, end)` into a buffer.
///
/// Well-formed ranges have `start <= end`, but the builder canonicalizes
/// whatever it is given: a malformed range is a caller error that surfaces
/// later at the graphics-API boundary, outside this library's scope.
#[derive(Clone, Copy, PartialEq, Eq, Hash, Debug)]
pub struct BufferRange {
    pub start: u64,
    pub end: u64,
}

/// One resource binding: a texture, a sampler, or a buffer range.
///
/// A buffer assignment may carry a `dynamic_index`: an index into a separate
/// dynamic-offset table supplied at bind time, not a byte offset itself.
#[derive(Clone, Copy, PartialEq, Eq, Hash, Debug)]
pub enum RenderResourceAssignment {
    Texture(TextureId),
    Sampler(SamplerId),
    Buffer { buffer: BufferId, range: BufferRange, dynamic_index: Option<u32> },
}

/// An assignment paired with the binding slot it fills.
///
/// Uniqueness of `index` within a set is expected of callers but not
/// enforced: duplicates are silently retained.
#[derive(Clone, Copy, PartialEq, Eq, Hash, Debug)]
pub struct IndexedRenderResourceAssignment {
    pub index: u32,
    pub assignment: RenderResourceAssignment,
}

/// The dynamic-offset index an assignment carries, if any.
pub open spec fn dynamic_index_of(a: RenderResourceAssignment) -> Option<u32> {
    match a {
        RenderResourceAssignment::Buffer { dynamic_index, .. } => dynamic_index,
        _ => None,
    }
}

/// The assignments of `s`, in order, with the binding indices stripped.
pub open spec fn assignments_of(s: Seq<IndexedRenderResourceAssignment>) -> Seq<
    RenderResourceAssignment,
>
    decreases s.len(),
{
    if s.len() == 0 {
        Seq::empty()
    } else {
        assignments_of(s.drop_last()).push(s.last().assignment)
    }
}

/// The dynamic-offset indices carried by the assignments of `s`, in the
/// order the assignments appear in `s`.
pub open spec fn dyn_indices_of(s: Seq<IndexedRenderResourceAssignment>) -> Seq<u32>
    decreases s.len(),
{
    if s.len() == 0 {
        Seq::empty()
    } else {
        match dynamic_index_of(s.last().assignment) {
            Some(d) => dyn_indices_of(s.drop_last()).push(d),
            None => dyn_indices_of(s.drop_last()),
        }
    }
}

} // verus!
