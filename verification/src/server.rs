//! The engine as one value: its configuration, its registry behind the model
//! service, and its dispatcher behind the prediction service.

use crate::application::services::model_service::ModelService;
use crate::application::services::prediction_service::PredictionService;
use crate::common::error::UniModelError;
use crate::common::types::HealthStatus;
use crate::domain::service::batch_processor::{
    capped_sum, flushed_count, is_pass, policy_table, BatchPlan, BatchProcessor,
};
use crate::domain::service::model_manager::ModelManager;
use crate::infrastructure::configuration::Config;
use vstd::prelude::*;

verus! {

/// The version of the engine.
pub const VERSION: &'static str = "0.1.0";

/// The name of the engine.
pub const NAME: &'static str = "unimodel";

/// The engine.
#[derive(Debug)]
pub struct UniModelServer {
    pub config: Config,
    pub model_service: ModelService,
    pub prediction_service: PredictionService,
}

impl UniModelServer {
    /// The invariant of the engine: its registry is well formed and its
    /// dispatcher is too.
    pub open spec fn wf(self) -> bool {
        self.model_service.model_manager.wf() && self.prediction_service.batch_processor.wf()
    }

    /// An engine for a valid configuration: an empty registry of the
    /// configured capacity and an idle dispatcher with empty queues. An
    /// invalid configuration is refused with its first fault.
    pub fn new(config: Config) -> (r: Result<Self, UniModelError>)
        ensures
            match r {
                Ok(server) => {
                    &&& config.valid()
                    &&& server.config == config
                    &&& server.wf()
                    &&& server.model_service.model_manager@.len() == 0
                    &&& server.model_service.model_manager.capacity() == config.engine.max_models
                    &&& server.prediction_service.batch_processor.ingress().len() == 0
                    &&& server.prediction_service.batch_processor.pending().len() == 0
                    &&& !server.prediction_service.batch_processor.is_running()
                    &&& !server.prediction_service.batch_processor.is_stopped()
                    &&& server.prediction_service.batch_processor.default_policy()
                        == config.engine.batch_config
                },
                Err(e) => e is Config && config.fault() == Some(e.message()),
            },
    {
        let batch_processor = match BatchProcessor::new(&config) {
            Ok(processor) => processor,
            Err(e) => {
                return Err(e);
            },
        };
        let model_manager = match ModelManager::new(&config) {
            Ok(manager) => manager,
            Err(e) => {
                return Err(e);
            },
        };
        Ok(
            UniModelServer {
                config,
                model_service: ModelService::new(model_manager),
                prediction_service: PredictionService::new(batch_processor),
            },
        )
    }

    /// Starts the dispatcher. An engine that runs already refuses, and
    /// nothing changes.
    pub fn start(&mut self) -> (r: Result<(), UniModelError>)
        requires
            old(self).wf(),
        ensures
            final(self).wf(),
            final(self).config == old(self).config,
            final(self).model_service == old(self).model_service,
            final(self).prediction_service.batch_processor.ingress()
                == old(self).prediction_service.batch_processor.ingress(),
            final(self).prediction_service.batch_processor.pending()
                == old(self).prediction_service.batch_processor.pending(),
            match r {
                Ok(()) => !old(self).prediction_service.batch_processor.is_running()
                    && final(self).prediction_service.batch_processor.is_running(),
                Err(e) => old(self).prediction_service.batch_processor.is_running()
                    && final(self).prediction_service.batch_processor.is_running()
                    && e is Internal && e.message()
                    == "BatchProcessor already running"@,
            },
    {
        self.prediction_service.batch_processor.start()
    }

    /// Stops the dispatcher: intake refuses from now on and the next tick
    /// drains every group.
    pub fn stop(&mut self) -> (r: Result<(), UniModelError>)
        requires
            old(self).wf(),
        ensures
            r is Ok,
            final(self).wf(),
            final(self).config == old(self).config,
            final(self).model_service == old(self).model_service,
            !final(self).prediction_service.batch_processor.is_running(),
            final(self).prediction_service.batch_processor.is_stopped(),
            final(self).prediction_service.batch_processor.ingress()
                == old(self).prediction_service.batch_processor.ingress(),
            final(self).prediction_service.batch_processor.pending()
                == old(self).prediction_service.batch_processor.pending(),
    {
        self.prediction_service.batch_processor.stop()
    }

    /// The health of the engine: unknown while no model is registered,
    /// healthy when at least one model is healthy, unhealthy otherwise.
    pub fn health(&self) -> (health: HealthStatus)
        ensures
            health == ModelManager::health(self.model_service.model_manager@),
    {
        self.model_service.model_manager.health_check()
    }

    /// One tick of the dispatcher at time `now`, under the batch policies
    /// of the registered models.
    pub fn tick_at(&mut self, now: u64) -> (plan: BatchPlan)
        ensures
            final(self).config == old(self).config,
            final(self).model_service == old(self).model_service,
            final(self).prediction_service.batch_processor.same_settings(
                old(self).prediction_service.batch_processor,
            ),
            final(self).prediction_service.batch_processor.ingress().len() == 0,
            is_pass(
                old(self).prediction_service.batch_processor.pending()
                    + old(self).prediction_service.batch_processor.ingress(),
                policy_table(
                    old(self).model_service.model_manager,
                    old(self).prediction_service.batch_processor.default_policy(),
                ),
                old(self).prediction_service.batch_processor.is_stopped(),
                now,
                plan,
                final(self).prediction_service.batch_processor.pending(),
            ),
            final(self).prediction_service.batch_processor.processed() == capped_sum(
                old(self).prediction_service.batch_processor.processed(),
                flushed_count(
                    old(self).prediction_service.batch_processor.pending()
                        + old(self).prediction_service.batch_processor.ingress(),
                    policy_table(
                        old(self).model_service.model_manager,
                        old(self).prediction_service.batch_processor.default_policy(),
                    ),
                    old(self).prediction_service.batch_processor.is_stopped(),
                    now,
                ),
            ),
            final(self).prediction_service.batch_processor.batches_formed() == capped_sum(
                old(self).prediction_service.batch_processor.batches_formed(),
                plan.batches@.len(),
            ),
    {
        self.prediction_service.batch_processor.tick_at(&self.model_service.model_manager, now)
    }
}

} // verus!
