//! What the transport layer says and hears.

pub mod rest;
