//! Handlers, the router, and the rules of the server around them.

pub mod handler;
pub mod router;
pub mod server;
