//! Mutators that work on a sequence of packets.

pub mod crossover;
pub mod delete;
pub mod duplicate;
pub mod reorder;
pub mod splice;
