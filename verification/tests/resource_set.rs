use std::sync::Arc;

use render_resource_set::assignment::BufferId;
use render_resource_set::assignment::BufferRange;
use render_resource_set::assignment::IndexedRenderResourceAssignment;
use render_resource_set::assignment::RenderResourceAssignment;
use render_resource_set::assignment::SamplerId;
use render_resource_set::assignment::TextureId;
use render_resource_set::identity::FNV_OFFSET_BASIS;
use render_resource_set::set::RenderResourceSet;

#[test]
fn sorts_by_index() {
    let set = RenderResourceSet::build()
        .add_texture(2, TextureId(7))
        .add_sampler(0, SamplerId(3))
        .finish();
    assert_eq!(set.indexed_assignments.len(), 2);
    assert_eq!(
        set.indexed_assignments[0],
        IndexedRenderResourceAssignment {
            index: 0,
            assignment: RenderResourceAssignment::Sampler(SamplerId(3)),
        }
    );
    assert_eq!(
        set.indexed_assignments[1],
        IndexedRenderResourceAssignment {
            index: 2,
            assignment: RenderResourceAssignment::Texture(TextureId(7)),
        }
    );
}

#[test]
fn dynamic_offsets_keep_add_order() {
    let set = RenderResourceSet::build()
        .add_dynamic_buffer(1, BufferId(10), BufferRange { start: 0, end: 64 }, 0)
        .add_dynamic_buffer(0, BufferId(11), BufferRange { start: 64, end: 128 }, 1)
        .finish();
    assert_eq!(
        set.indexed_assignments[0],
        IndexedRenderResourceAssignment {
            index: 0,
            assignment: RenderResourceAssignment::Buffer {
                buffer: BufferId(11),
                range: BufferRange { start: 64, end: 128 },
                dynamic_index: Some(1),
            },
        }
    );
    assert_eq!(
        set.indexed_assignments[1],
        IndexedRenderResourceAssignment {
            index: 1,
            assignment: RenderResourceAssignment::Buffer {
                buffer: BufferId(10),
                range: BufferRange { start: 0, end: 64 },
                dynamic_index: Some(0),
            },
        }
    );
    // add order, not sorted-index order
    assert_eq!(set.dynamic_uniform_indices, Some(Arc::new(vec![0, 1])));
}

#[test]
fn same_order_same_identity() {
    let a = RenderResourceSet::build()
        .add_texture(0, TextureId(1))
        .add_sampler(1, SamplerId(2))
        .add_buffer(2, BufferId(3), BufferRange { start: 0, end: 16 })
        .finish();
    let b = RenderResourceSet::build()
        .add_texture(0, TextureId(1))
        .add_sampler(1, SamplerId(2))
        .add_buffer(2, BufferId(3), BufferRange { start: 0, end: 16 })
        .finish();
    assert_eq!(a.id, b.id);
    assert_eq!(a.indexed_assignments, b.indexed_assignments);
    assert_eq!(a, b);
}

#[test]
fn different_order_identity_differs() {
    let a = RenderResourceSet::build()
        .add_texture(0, TextureId(1))
        .add_sampler(1, SamplerId(2))
        .finish();
    let b = RenderResourceSet::build()
        .add_sampler(1, SamplerId(2))
        .add_texture(0, TextureId(1))
        .finish();
    // the sorted content is call-order independent ...
    assert_eq!(a.indexed_assignments, b.indexed_assignments);
    // ... but the identity is finalized from the accumulator as it stood
    // before the sort, so it is call-order dependent
    assert_ne!(a.id, b.id);
}

#[test]
fn empty_set() {
    let set = RenderResourceSet::build().finish();
    assert_eq!(set.id.0, FNV_OFFSET_BASIS);
    assert!(set.indexed_assignments.is_empty());
    assert_eq!(set.dynamic_uniform_indices, None);
}

#[test]
fn no_dynamic_is_absent_not_empty() {
    let set = RenderResourceSet::build()
        .add_buffer(0, BufferId(5), BufferRange { start: 0, end: 32 })
        .add_texture(1, TextureId(6))
        .finish();
    assert_eq!(set.dynamic_uniform_indices, None);
}

#[test]
fn finish_is_deterministic() {
    let build = || {
        RenderResourceSet::build()
            .add_dynamic_buffer(3, BufferId(9), BufferRange { start: 8, end: 24 }, 2)
            .add_sampler(1, SamplerId(4))
            .add_dynamic_buffer(0, BufferId(9), BufferRange { start: 0, end: 8 }, 0)
            .finish()
    };
    let a = build();
    let b = build();
    assert_eq!(a.id, b.id);
    assert_eq!(a.indexed_assignments, b.indexed_assignments);
    assert_eq!(a.dynamic_uniform_indices, b.dynamic_uniform_indices);
}

#[test]
fn duplicate_indices_are_retained_in_add_order() {
    let set = RenderResourceSet::build()
        .add_texture(1, TextureId(100))
        .add_texture(1, TextureId(200))
        .add_texture(0, TextureId(300))
        .finish();
    assert_eq!(set.indexed_assignments.len(), 3);
    assert_eq!(set.indexed_assignments[0].assignment, RenderResourceAssignment::Texture(TextureId(300)));
    // the sort is stable: equal indices keep their add order
    assert_eq!(set.indexed_assignments[1].assignment, RenderResourceAssignment::Texture(TextureId(100)));
    assert_eq!(set.indexed_assignments[2].assignment, RenderResourceAssignment::Texture(TextureId(200)));
}

#[test]
fn wrappers_match_add_assignment() {
    let sugar = RenderResourceSet::build()
        .add_texture(0, TextureId(1))
        .add_sampler(1, SamplerId(2))
        .add_buffer(2, BufferId(3), BufferRange { start: 4, end: 8 })
        .add_dynamic_buffer(3, BufferId(5), BufferRange { start: 0, end: 4 }, 7)
        .finish();
    let plain = RenderResourceSet::build()
        .add_assignment(0, RenderResourceAssignment::Texture(TextureId(1)))
        .add_assignment(1, RenderResourceAssignment::Sampler(SamplerId(2)))
        .add_assignment(
            2,
            RenderResourceAssignment::Buffer {
                buffer: BufferId(3),
                range: BufferRange { start: 4, end: 8 },
                dynamic_index: None,
            },
        )
        .add_assignment(
            3,
            RenderResourceAssignment::Buffer {
                buffer: BufferId(5),
                range: BufferRange { start: 0, end: 4 },
                dynamic_index: Some(7),
            },
        )
        .finish();
    assert_eq!(sugar, plain);
}

#[test]
fn identity_covers_every_field() {
    let range = BufferRange { start: 0, end: 16 };
    let reference = RenderResourceSet::build().add_buffer(0, BufferId(3), range).finish();

    let other_buffer = RenderResourceSet::build().add_buffer(0, BufferId(4), range).finish();
    assert_ne!(reference.id, other_buffer.id);

    let other_end = RenderResourceSet::build()
        .add_buffer(0, BufferId(3), BufferRange { start: 0, end: 17 })
        .finish();
    assert_ne!(reference.id, other_end.id);

    let other_start = RenderResourceSet::build()
        .add_buffer(0, BufferId(3), BufferRange { start: 1, end: 16 })
        .finish();
    assert_ne!(reference.id, other_start.id);

    let with_dynamic =
        RenderResourceSet::build().add_dynamic_buffer(0, BufferId(3), range, 0).finish();
    assert_ne!(reference.id, with_dynamic.id);

    let other_dynamic =
        RenderResourceSet::build().add_dynamic_buffer(0, BufferId(3), range, 1).finish();
    assert_ne!(with_dynamic.id, other_dynamic.id);
}

#[test]
fn identity_matches_combining_rule() {
    // fold the words (variant tag, then payload fields) into the FNV-1a
    // accumulator: state = (state ^ word) * prime, wrapping
    let set = RenderResourceSet::build().add_texture(0, TextureId(9)).finish();
    assert_eq!(set.id.0, 0x082f_1b07_b4e8_80df);

    let dynamic = RenderResourceSet::build()
        .add_dynamic_buffer(0, BufferId(5), BufferRange { start: 0, end: 4 }, 7)
        .finish();
    assert_eq!(dynamic.id.0, 0xd13c_8601_7679_7975);
}

#[test]
fn variant_tag_enters_identity() {
    let texture = RenderResourceSet::build().add_texture(0, TextureId(9)).finish();
    let sampler = RenderResourceSet::build().add_sampler(0, SamplerId(9)).finish();
    assert_ne!(texture.id, sampler.id);
}
