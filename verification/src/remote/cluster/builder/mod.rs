//! Setting a node up for its place in the cluster.
pub mod worker;
