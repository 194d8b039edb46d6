//! Types, errors and constants shared by every layer.

pub mod constants;
pub mod enums;
pub mod error;
pub mod text;
pub mod types;
