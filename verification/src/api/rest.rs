//! The REST surface.

pub mod handlers;
