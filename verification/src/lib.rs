//! Constraint-based layout and frame-to-frame change detection for a
//! retained-tree-free UI runtime.
//!
//! The crate resolves element geometry from a flat constraint graph by
//! Gauss-Seidel relaxation, fingerprints each resolved instance, diffs the
//! fingerprints against the previous frame, and coalesces the differences
//! into minimal buffer writes, draw batches and dirty regions.

use vstd::prelude::*;

pub mod adapter;
pub mod batch;
pub mod constraint;
pub mod coordinate;
pub mod diff;
pub mod dirty_rect;
pub mod geom;
pub mod input;
pub mod ir;
pub mod layout;
pub mod platform;
pub mod solver;
pub mod state_hash;
pub mod tag;

verus! {

} // verus!
