//! Canonicalization and identity hashing for GPU resource binding sets.
//!
//! A renderer groups heterogeneous resources (textures, samplers, buffer
//! ranges with optional dynamic offsets) into resource sets that are bound
//! together to a shader stage. Identical logical sets are requested
//! repeatedly across frames, so each distinct set is given a stable,
//! content-derived 64-bit identity that downstream caches use to find and
//! reuse previously created GPU-side binding objects.
//!
//! The library provides a builder that accumulates indexed resource
//! assignments, folds each assignment into a running content hash as it is
//! added, and finalizes into an immutable, shareable resource set whose
//! assignment sequence is sorted ascending by binding index.

pub mod assignment;
pub mod identity;
pub mod set;
pub mod sort;
