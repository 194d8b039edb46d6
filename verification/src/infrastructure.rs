//! What surrounds the engine: its configuration.

pub mod configuration;
