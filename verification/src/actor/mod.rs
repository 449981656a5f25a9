//! Actors: the per-actor context and the lifecycle loop.
pub mod context;
pub mod lifecycle;
