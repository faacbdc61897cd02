//! The shared vocabulary: packets, events, metrics and source descriptors,
//! and the contract that every source keeps.

pub mod traits;
pub mod types;
pub mod vecs;
