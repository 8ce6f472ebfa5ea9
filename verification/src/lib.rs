//! An entity-component-system runtime for an interactive real-time
//! application engine: entity identity, typed component storage with
//! per-frame dirty flags, cross-entity relationship graphs, resource
//! singletons, deferred structural commands, per-frame system scheduling,
//! a dirty-driven transform-hierarchy propagation system, and a two-phase
//! render-pass graph.
//!
//! All arithmetic on transforms is fixed-point integer arithmetic: one
//! unit of world space is [`math::FP_ONE`] in raw fixed-point units.

use vstd::prelude::*;

pub mod commands;
pub mod ecs;
pub mod engine;
pub mod input;
pub mod math;
pub mod propagation;
pub mod relationship;
pub mod render_graph;
pub mod sprite;
pub mod storage;
pub mod system;
pub mod transform;

verus! {

/// An entity handle: a densely allocated, non-negative integer.
/// Unique while alive; all references between entities are ids
/// resolved through the storage.
pub type EntityId = usize;

} // verus!
