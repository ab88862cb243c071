//! Incremental scene compilation and progressive rendering for a node-graph
//! scene editor: capability bits for pins, per-node subscription tables,
//! graph traversal, the scene compiler and the sample accumulator.
use vstd::prelude::*;

pub mod catalogue;
pub mod compile;
pub mod draw;
pub mod edit;
pub mod flags;
pub mod gpu;
pub mod graph;
pub mod node;
pub mod output;
pub mod pin;
pub mod render;
pub mod reuse;
pub mod sampling;
pub mod scene;
pub mod subscription;

verus! {

} // verus!
