//! The middleware pipeline: the chain and its stages.

pub mod builtin;
pub mod chain;
pub mod laws;
