//! What a node knows of its cluster.
pub mod builder;
pub mod node;
pub mod singleton;
