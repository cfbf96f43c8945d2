//! Ready-made images built from the primitives.

pub mod explorer;
pub mod graph;
pub mod playerlist;
