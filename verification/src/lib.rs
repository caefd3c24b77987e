//! A small HTTP request-processing core: a priority-ordered middleware
//! pipeline in front of a router, with the rules for handlers that live
//! across a foreign-function boundary.

pub mod boundary;
pub mod error;
pub mod middleware;
pub mod strmap;
pub mod text;
pub mod types;
pub mod web;
