//! Model administration and prediction intake.

pub mod model_service;
pub mod prediction_service;
