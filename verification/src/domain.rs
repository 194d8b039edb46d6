//! The model entity and the two services that own the serving state.

pub mod model;
pub mod service;
