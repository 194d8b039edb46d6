//! A multi-tenant model-inference serving gateway core.
//!
//! The crate holds the decision logic of the gateway as verified, synchronous
//! state machines: the model registry and its lifecycle, the performance
//! ledger, request validation, and the micro-batching dispatcher. Timers,
//! channels and backend executors live with the caller, which feeds events in
//! and carries the returned actions out.

pub mod api;
pub mod application;
pub mod common;
pub mod domain;
pub mod infrastructure;
pub mod server;

pub use crate::application::services::model_service::ModelService;
pub use crate::application::services::prediction_service::PredictionService;
pub use crate::common::error::UniModelError;
pub use crate::domain::model::model_entity::{Model, ModelInfo, ModelStatus};
pub use crate::domain::service::batch_processor::BatchProcessor;
pub use crate::domain::service::model_manager::ModelManager;
pub use crate::infrastructure::configuration::{Config, EngineConfig, ServerConfig};
pub use crate::server::{UniModelServer, NAME, VERSION};
