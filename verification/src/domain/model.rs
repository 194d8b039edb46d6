//! The model entity.

pub mod model_entity;
