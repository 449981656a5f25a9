//! Actors of which the whole cluster runs one.
pub mod proxy;
