//! The bodies of the REST calls and the decisions behind each call.

pub mod model_handler;
pub mod predict_handler;
