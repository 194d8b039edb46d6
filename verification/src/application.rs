//! The two services that the transport layer calls.

pub mod services;
