//! Generational storage for agents and plain index slabs.
pub mod agents;
pub mod slab;
