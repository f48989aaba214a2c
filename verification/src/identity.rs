//! The content-hash identity of a resource set.
//!
//! Each assignment added to a builder is folded word by word into a running
//! 64-bit accumulator using the FNV-1a combining rule: the accumulator is
//! xor-ed with the next word and then multiplied (wrapping) by the FNV
//! prime. The words of an assignment are its variant tag followed by all of
//! its payload fields, so semantically distinct assignments almost never
//! hash identically. The identity is the accumulator as it stands after the
//! last assignment was folded in; it therefore depends on the order in which
//! assignments were added, not on their binding indices.

use vstd::prelude::*;

use crate::assignment::IndexedRenderResourceAssignment;
use crate::assignment::RenderResourceAssignment;
use crate::assignment::assignments_of;

verus! {

/// The FNV-1a 64-bit offset basis: the accumulator's initial state, and the
/// identity of a set with no assignments.
pub const FNV_OFFSET_BASIS: u64 = 0xcbf2_9ce4_8422_2325;

/// The FNV-1a 64-bit prime.
pub const FNV_PRIME: u64 = 0x0000_0100_0000_01b3;

/// Tag word folded in for a texture assignment.
pub const TAG_TEXTURE: u64 = 1;

/// Tag word folded in for a sampler assignment.
pub const TAG_SAMPLER: u64 = 2;

/// Tag word folded in for a buffer assignment.
pub const TAG_BUFFER: u64 = 3;

/// Word marking an absent dynamic-offset index.
pub const TAG_DYNAMIC_ABSENT: u64 = 0;

/// Word marking a present dynamic-offset index.
pub const TAG_DYNAMIC_PRESENT: u64 = 1;

/// One FNV-1a combining step: xor the word in, multiply by the prime.
pub open spec fn hash_word(state: u64, word: u64) -> u64 {
    vstd::wrapping::u64_specs::wrapping_mul(state ^ word, FNV_PRIME)
}

/// Folds one assignment into the accumulator: its variant tag, then every
/// payload field, including the presence and value of a dynamic index.
pub open spec fn hash_assignment(state: u64, a: RenderResourceAssignment) -> u64 {
    match a {
        RenderResourceAssignment::Texture(t) => hash_word(hash_word(state, TAG_TEXTURE), t.0),
        RenderResourceAssignment::Sampler(s) => hash_word(hash_word(state, TAG_SAMPLER), s.0),
        RenderResourceAssignment::Buffer { buffer, range, dynamic_index } => {
            let h = hash_word(
                hash_word(hash_word(hash_word(state, TAG_BUFFER), buffer.0), range.start),
                range.end,
            );
            match dynamic_index {
                None => hash_word(h, TAG_DYNAMIC_ABSENT),
                Some(d) => hash_word(hash_word(h, TAG_DYNAMIC_PRESENT), d as u64),
            }
        },
    }
}

/// Folds a sequence of assignments into the accumulator, left to right.
pub open spec fn hash_assignments(state: u64, s: Seq<RenderResourceAssignment>) -> u64
    decreases s.len(),
{
    if s.len() == 0 {
        state
    } else {
        hash_assignment(hash_assignments(state, s.drop_last()), s.last())
    }
}

/// The identity of a set built by adding `s`, in order: the hash of the
/// assignments in add order, from the offset basis. Binding indices do not
/// enter the hash.
pub open spec fn set_identity(s: Seq<IndexedRenderResourceAssignment>) -> u64 {
    hash_assignments(FNV_OFFSET_BASIS, assignments_of(s))
}

/// A resource set's stable, content-derived identity, used downstream as a
/// cache key standing in for full content equality.
#[derive(Clone, Copy, PartialEq, Eq, Hash, Debug)]
pub struct RenderResourceSetId(pub u64);

/// One FNV-1a combining step, executable form.
pub(crate) fn hash_word_state(state: u64, word: u64) -> (r: u64)
    ensures
        r == hash_word(state, word),
{
    (state ^ word).wrapping_mul(FNV_PRIME)
}

/// Folds one assignment into the accumulator, executable form.
pub(crate) fn hash_assignment_state(state: u64, a: &RenderResourceAssignment) -> (r: u64)
    ensures
        r == hash_assignment(state, *a),
{
    match a {
        RenderResourceAssignment::Texture(t) => {
            hash_word_state(hash_word_state(state, TAG_TEXTURE), t.0)
        },
        RenderResourceAssignment::Sampler(s) => {
            hash_word_state(hash_word_state(state, TAG_SAMPLER), s.0)
        },
        RenderResourceAssignment::Buffer { buffer, range, dynamic_index } => {
            let h = hash_word_state(
                hash_word_state(hash_word_state(hash_word_state(state, TAG_BUFFER), buffer.0), range.start),
                range.end,
            );
            match dynamic_index {
                None => hash_word_state(h, TAG_DYNAMIC_ABSENT),
                Some(d) => hash_word_state(hash_word_state(h, TAG_DYNAMIC_PRESENT), *d as u64),
            }
        },
    }
}

/// Folding the assignments of `s.push(ia)` extends the fold over `s` by one
/// step on `ia`'s assignment.
pub proof fn lemma_set_identity_push(s: Seq<IndexedRenderResourceAssignment>, ia: IndexedRenderResourceAssignment)
    ensures
        set_identity(s.push(ia)) == hash_assignment(set_identity(s), ia.assignment),
{
    assert(s.push(ia).drop_last() =~= s);
    assert(assignments_of(s.push(ia)) == assignments_of(s).push(ia.assignment));
    assert(assignments_of(s).push(ia.assignment).drop_last() =~= assignments_of(s));
}

} // verus!
