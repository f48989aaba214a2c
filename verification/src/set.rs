//! The resource set builder and the finished, immutable resource set.
//!
//! A builder accumulates `(index, assignment)` pairs in whatever order the
//! call site finds convenient, folds each assignment into the running
//! content hash as it arrives, and collects the dynamic-offset indices in
//! add order. Finalizing sorts the pairs ascending by binding index
//! (stably) and takes the identity from the accumulator as it stood after
//! the last add — before the sort — so the identity depends on add order
//! while the assignment sequence does not.

use std::sync::Arc;

use vstd::prelude::*;

use crate::assignment::IndexedRenderResourceAssignment;
use crate::assignment::RenderResourceAssignment;
use crate::assignment::BufferId;
use crate::assignment::BufferRange;
use crate::assignment::SamplerId;
use crate::assignment::TextureId;
use crate::assignment::dyn_indices_of;
use crate::identity::FNV_OFFSET_BASIS;
use crate::identity::RenderResourceSetId;
use crate::identity::hash_assignment_state;
use crate::identity::lemma_set_identity_push;
use crate::identity::set_identity;
use crate::sort::lemma_sort_by_index_ensures;
use crate::sort::sort_assignments;
use crate::sort::sort_by_index;
use crate::sort::sorted_by_index;

verus! {

/// The finished, immutable resource set: a stable content-derived identity,
/// the assignments sorted ascending by binding index, and — when any
/// assignment carried a dynamic-offset index — those indices in the order
/// the assignments were added. The sequences are shared and never mutated
/// after construction, so a set may be cloned cheaply and read from many
/// owners at once.
#[derive(Clone, PartialEq, Eq, Debug)]
pub struct RenderResourceSet {
    pub id: RenderResourceSetId,
    pub indexed_assignments: Arc<Vec<IndexedRenderResourceAssignment>>,
    pub dynamic_uniform_indices: Option<Arc<Vec<u32>>>,
}

impl RenderResourceSet {
    /// A finished set is well formed when its assignments are sorted
    /// ascending by binding index and its dynamic-offset sequence, when
    /// present, is non-empty.
    pub open spec fn wf(self) -> bool {
        &&& sorted_by_index(self.indexed_assignments@)
        &&& (self.dynamic_uniform_indices matches Some(d) ==> d@.len() > 0)
    }

    /// Starts building a new, empty resource set.
    pub fn build() -> (result: RenderResourceSetBuilder)
        ensures
            result@ == Seq::<IndexedRenderResourceAssignment>::empty(),
            result.wf(),
    {
        RenderResourceSetBuilder::default()
    }
}

/// Single-use accumulator for a resource set: the pairs added so far in add
/// order, the dynamic-offset indices collected in add order, and the
/// running content-hash accumulator. Consumed by [`Self::finish`].
pub struct RenderResourceSetBuilder {
    pub indexed_assignments: Vec<IndexedRenderResourceAssignment>,
    pub dynamic_uniform_indices: Vec<u32>,
    pub hash_state: u64,
}

impl View for RenderResourceSetBuilder {
    type V = Seq<IndexedRenderResourceAssignment>;

    /// A builder is abstractly the sequence of pairs added so far, in add
    /// order.
    open spec fn view(&self) -> Seq<IndexedRenderResourceAssignment> {
        self.indexed_assignments@
    }
}

impl Default for RenderResourceSetBuilder {
    /// An empty builder: nothing added, accumulator at the offset basis.
    fn default() -> (result: Self)
        ensures
            result@ == Seq::<IndexedRenderResourceAssignment>::empty(),
            result.wf(),
    {
        let result = RenderResourceSetBuilder {
            indexed_assignments: Vec::new(),
            dynamic_uniform_indices: Vec::new(),
            hash_state: FNV_OFFSET_BASIS,
        };
        proof {
            assert(result@ =~= Seq::<IndexedRenderResourceAssignment>::empty());
        }
        result
    }
}

impl RenderResourceSetBuilder {
    /// The builder's internal invariant: the accumulator equals the hash of
    /// the assignments added so far, and the collected dynamic-offset
    /// indices are exactly those the added assignments carry, in add order.
    /// Established by [`RenderResourceSet::build`] and preserved by every
    /// add.
    pub open spec fn wf(self) -> bool {
        &&& self.hash_state == set_identity(self@)
        &&& self.dynamic_uniform_indices@ == dyn_indices_of(self@)
    }

    /// Records one `(index, assignment)` pair: folds the assignment into
    /// the content hash, collects its dynamic-offset index if it carries
    /// one, and appends the pair. Returns the builder for chaining. Repeated
    /// indices are retained as given; call order across indices is free.
    pub fn add_assignment(self, index: u32, assignment: RenderResourceAssignment) -> (result: Self)
        requires
            self.wf(),
        ensures
            result@ == self@.push(IndexedRenderResourceAssignment { index, assignment }),
            result.wf(),
    {
        let ghost pair = IndexedRenderResourceAssignment { index, assignment };
        let RenderResourceSetBuilder {
            mut indexed_assignments,
            mut dynamic_uniform_indices,
            hash_state,
        } = self;
        if let RenderResourceAssignment::Buffer {
            dynamic_index: Some(dynamic_index), ..
        } = assignment {
            dynamic_uniform_indices.push(dynamic_index);
        }
        let hash_state = hash_assignment_state(hash_state, &assignment);
        indexed_assignments.push(IndexedRenderResourceAssignment { index, assignment });
        proof {
            lemma_set_identity_push(self@, pair);
            assert(self@.push(pair).drop_last() =~= self@);
        }
        RenderResourceSetBuilder { indexed_assignments, dynamic_uniform_indices, hash_state }
    }

    /// Records a texture assignment at `index`.
    pub fn add_texture(self, index: u32, texture: TextureId) -> (result: Self)
        requires
            self.wf(),
        ensures
            result@ == self@.push(
                IndexedRenderResourceAssignment {
                    index,
                    assignment: RenderResourceAssignment::Texture(texture),
                },
            ),
            result.wf(),
    {
        self.add_assignment(index, RenderResourceAssignment::Texture(texture))
    }

    /// Records a sampler assignment at `index`.
    pub fn add_sampler(self, index: u32, sampler: SamplerId) -> (result: Self)
        requires
            self.wf(),
        ensures
            result@ == self@.push(
                IndexedRenderResourceAssignment {
                    index,
                    assignment: RenderResourceAssignment::Sampler(sampler),
                },
            ),
            result.wf(),
    {
        self.add_assignment(index, RenderResourceAssignment::Sampler(sampler))
    }

    /// Records a buffer assignment at `index` over `range`, with no
    /// dynamic-offset index.
    pub fn add_buffer(self, index: u32, buffer: BufferId, range: BufferRange) -> (result: Self)
        requires
            self.wf(),
        ensures
            result@ == self@.push(
                IndexedRenderResourceAssignment {
                    index,
                    assignment: RenderResourceAssignment::Buffer {
                        buffer,
                        range,
                        dynamic_index: None,
                    },
                },
            ),
            result.wf(),
    {
        self.add_assignment(
            index,
            RenderResourceAssignment::Buffer { buffer, range, dynamic_index: None },
        )
    }

    /// Records a buffer assignment at `index` over `range` that takes its
    /// per-draw offset from slot `dynamic_index` of the dynamic-offset
    /// table.
    pub fn add_dynamic_buffer(
        self,
        index: u32,
        buffer: BufferId,
        range: BufferRange,
        dynamic_index: u32,
    ) -> (result: Self)
        requires
            self.wf(),
        ensures
            result@ == self@.push(
                IndexedRenderResourceAssignment {
                    index,
                    assignment: RenderResourceAssignment::Buffer {
                        buffer,
                        range,
                        dynamic_index: Some(dynamic_index),
                    },
                },
            ),
            result.wf(),
    {
        self.add_assignment(
            index,
            RenderResourceAssignment::Buffer { buffer, range, dynamic_index: Some(dynamic_index) },
        )
    }

    /// Content equality, and idempotence of finalizing: two builders that
    /// recorded the same `(index, assignment)` pairs in the same order
    /// finish to the same identity, the same sorted assignment sequence,
    /// and the same dynamic-offset sequence — every clause of
    /// [`Self::finish`]'s contract is an equation in the add-order sequence
    /// alone, so re-deriving a set from the same recorded inputs always
    /// yields identical output.
    pub proof fn lemma_finish_determined_by_adds(a: Self, b: Self)
        requires
            a.wf(),
            b.wf(),
            a@ == b@,
        ensures
            set_identity(a@) == set_identity(b@),
            sort_by_index(a@) == sort_by_index(b@),
            dyn_indices_of(a@) == dyn_indices_of(b@),
            a.hash_state == b.hash_state,
            a.dynamic_uniform_indices@ == b.dynamic_uniform_indices@,
    {
    }

    /// Finalizes the builder into an immutable resource set.
    ///
    /// The assignments are sorted ascending by binding index with a stable
    /// sort, so the finished sequence does not depend on call order (for
    /// distinct indices). The identity is the hash accumulator exactly as
    /// it stood after the last add — before the sort — so it does depend on
    /// add order. The dynamic-offset indices are kept in add order, and are
    /// absent (not empty) when no added assignment carried one.
    pub fn finish(self) -> (result: RenderResourceSet)
        requires
            self.wf(),
        ensures
            result.id == RenderResourceSetId(set_identity(self@)),
            result.indexed_assignments@ == sort_by_index(self@),
            result.indexed_assignments@.to_multiset() == self@.to_multiset(),
            dyn_indices_of(self@).len() == 0 ==> result.dynamic_uniform_indices is None,
            dyn_indices_of(self@).len() > 0 ==> (result.dynamic_uniform_indices matches Some(d)
                && d@ == dyn_indices_of(self@)),
            result.wf(),
    {
        proof {
            lemma_sort_by_index_ensures(self@);
        }
        let RenderResourceSetBuilder {
            indexed_assignments,
            dynamic_uniform_indices,
            hash_state,
        } = self;
        let sorted = sort_assignments(indexed_assignments);
        RenderResourceSet {
            id: RenderResourceSetId(hash_state),
            indexed_assignments: Arc::new(sorted),
            dynamic_uniform_indices: if dynamic_uniform_indices.is_empty() {
                None
            } else {
                Some(Arc::new(dynamic_uniform_indices))
            },
        }
    }
}

} // verus!
