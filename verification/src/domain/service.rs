//! The services that own the serving state.

pub mod batch_lemmas;
pub mod batch_processor;
pub mod model_manager;
