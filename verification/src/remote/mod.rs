//! Actors across nodes: the cluster's bookkeeping and the connections to peers.
pub mod actor;
pub mod cluster;
pub mod net;
