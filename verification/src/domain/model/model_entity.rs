//! A registered model: what it is, how it is configured, where it stands in
//! its life, and how it has performed.

use crate::common::error::UniModelError;
use crate::common::types::{
    utc_now_millis, BatchConfig, HealthStatus, ModelId, PluginId, ResourceUsage, Timestamp,
};
use std::collections::HashMap;
use vstd::prelude::*;

verus! {

/// Where a model stands in its life.
#[derive(Debug, PartialEq)]
pub enum ModelStatus {
    /// Registered, not yet handed to a backend.
    Initializing,
    /// A backend is loading it.
    Loading,
    /// Loaded and idle.
    Ready,
    /// Loaded and serving a batch.
    Running,
    /// Loading or serving failed; the message says how.
    Error(String),
    /// Removed from service. Nothing follows this state.
    Unloaded,
}

impl ModelStatus {
    /// Whether a backend holds the model loaded in this state.
    pub open spec fn loaded(self) -> bool {
        self is Ready || self is Running
    }

    /// Whether the state machine lets `to` follow `self`.
    pub open spec fn can_become(self, to: ModelStatus) -> bool {
        match self {
            ModelStatus::Initializing => to is Loading || to is Unloaded,
            ModelStatus::Loading => to is Ready || to is Error || to is Unloaded,
            ModelStatus::Ready => to is Running || to is Error || to is Unloaded,
            ModelStatus::Running => to is Ready || to is Error || to is Unloaded,
            ModelStatus::Error(_) => to is Unloaded,
            ModelStatus::Unloaded => false,
        }
    }

    /// Whether a backend holds the model loaded in this state.
    pub fn is_loaded(&self) -> (r: bool)
        ensures
            r == self.loaded(),
    {
        matches!(self, ModelStatus::Ready | ModelStatus::Running)
    }

    /// Whether the state machine lets `to` follow `self`.
    pub fn allows(&self, to: &ModelStatus) -> (r: bool)
        ensures
            r == self.can_become(*to),
    {
        match self {
            ModelStatus::Initializing => matches!(to, ModelStatus::Loading | ModelStatus::Unloaded),
            ModelStatus::Loading => matches!(
                to,
                ModelStatus::Ready | ModelStatus::Error(_) | ModelStatus::Unloaded
            ),
            ModelStatus::Ready => matches!(
                to,
                ModelStatus::Running | ModelStatus::Error(_) | ModelStatus::Unloaded
            ),
            ModelStatus::Running => matches!(
                to,
                ModelStatus::Ready | ModelStatus::Error(_) | ModelStatus::Unloaded
            ),
            ModelStatus::Error(_) => matches!(to, ModelStatus::Unloaded),
            ModelStatus::Unloaded => false,
        }
    }
}

impl Clone for ModelStatus {
    fn clone(&self) -> (copy: Self)
        ensures
            copy == *self,
    {
        match self {
            ModelStatus::Initializing => ModelStatus::Initializing,
            ModelStatus::Loading => ModelStatus::Loading,
            ModelStatus::Ready => ModelStatus::Ready,
            ModelStatus::Running => ModelStatus::Running,
            ModelStatus::Error(message) => ModelStatus::Error(message.clone()),
            ModelStatus::Unloaded => ModelStatus::Unloaded,
        }
    }
}

/// What kind of model it is.
#[derive(Debug, Clone, PartialEq)]
pub enum ModelType {
    /// A large language model.
    LLM,
    /// A computer-vision model.
    CV,
    /// An audio model.
    Audio,
    /// A model over several modalities.
    Multimodal,
    /// A classical machine-learning model.
    ML,
    /// Any other kind, by name.
    Custom(String),
}

/// The kind of device a model runs on.
#[derive(Debug, Clone, Copy, PartialEq, Eq, Structural)]
pub enum DeviceType {
    CPU,
    CUDA,
    Metal,
    OpenCL,
    NPU,
}

/// The devices a model runs on.
#[derive(Debug, Clone, PartialEq)]
pub struct DeviceConfig {
    pub device_type: DeviceType,
    pub device_ids: Vec<u32>,
    pub memory_limit_mb: Option<u64>,
    pub mixed_precision: bool,
}

/// How weights are quantized.
#[derive(Debug, Clone, Copy, PartialEq, Eq, Structural)]
pub enum QuantizationType {
    INT8,
    INT4,
    FP16,
    Dynamic,
}

/// How hard the backend trades speed for memory.
#[derive(Debug, Clone, Copy, PartialEq, Eq, Structural)]
pub enum MemoryOptimization {
    /// No trade of speed for memory.
    Off,
    Low,
    Medium,
    High,
}

/// Inference optimizations of a model.
#[derive(Debug, Clone, Copy, PartialEq, Eq, Structural)]
pub struct OptimizationConfig {
    pub kv_cache: bool,
    pub quantization: Option<QuantizationType>,
    pub graph_optimization: bool,
    pub inference_parallelism: u32,
    pub memory_optimization: MemoryOptimization,
}

/// Everything a backend needs to load a model, and the batch policy under
/// which the dispatcher serves it.
#[derive(Debug, Clone, PartialEq)]
pub struct ModelConfig {
    pub model_path: String,
    pub config_path: Option<String>,
    pub tokenizer_path: Option<String>,
    /// Name of the backend that executes the model.
    pub backend: String,
    pub device: DeviceConfig,
    pub optimization: OptimizationConfig,
    pub batch_config: BatchConfig,
    /// Options that only the backend understands.
    pub custom_params: HashMap<String, serde_json::Value>,
}

/// Descriptive facts about a model.
#[derive(Debug, Clone, PartialEq)]
pub struct ModelMetadata {
    pub author: Option<String>,
    pub description: Option<String>,
    pub license: Option<String>,
    pub tags: Vec<String>,
    pub version: String,
    pub created_at: Timestamp,
    pub updated_at: Timestamp,
    pub custom_metadata: HashMap<String, serde_json::Value>,
}

/// The ledger of a model: how many requests it saw and how fast it was.
///
/// Latencies are kept in microseconds so that the moving average keeps a
/// fraction of the milliseconds that are fed in.
#[derive(Debug, Clone, Copy, PartialEq, Eq, Structural)]
pub struct PerformanceStats {
    pub total_requests: u64,
    pub successful_requests: u64,
    pub failed_requests: u64,
    /// Exponentially weighted moving average of the latency, weight 1/10 on
    /// the newest sample.
    pub avg_latency_us: u64,
    pub p95_latency_us: u64,
    pub p99_latency_us: u64,
    /// Requests per second, in thousandths.
    pub avg_throughput_milli_rps: u64,
    pub last_updated: Timestamp,
}

/// The moving average after a sample of `latency_ms` milliseconds: nine parts
/// of the old average and one part of the sample, never above `u64::MAX`.
pub open spec fn ewma_next(avg_us: u64, latency_ms: u64) -> u64 {
    let mixed = (9 * avg_us + 1000 * latency_ms) / 10;
    if mixed > u64::MAX {
        u64::MAX
    } else {
        mixed as u64
    }
}

impl PerformanceStats {
    /// Every request counted is counted once as a success or as a failure.
    pub open spec fn wf(self) -> bool {
        self.total_requests == self.successful_requests + self.failed_requests
    }

    /// The ledger of a model that has seen no request.
    pub open spec fn empty_at(now: Timestamp) -> PerformanceStats {
        PerformanceStats {
            total_requests: 0,
            successful_requests: 0,
            failed_requests: 0,
            avg_latency_us: 0,
            p95_latency_us: 0,
            p99_latency_us: 0,
            avg_throughput_milli_rps: 0,
            last_updated: now,
        }
    }

    /// The ledger after one more request. A full counter stops the count;
    /// the average and the time move on.
    pub open spec fn observed(self, latency_ms: u64, success: bool, now: Timestamp) -> PerformanceStats {
        let counted = self.total_requests < u64::MAX;
        PerformanceStats {
            total_requests: if counted {
                (self.total_requests + 1) as u64
            } else {
                self.total_requests
            },
            successful_requests: if counted && success {
                (self.successful_requests + 1) as u64
            } else {
                self.successful_requests
            },
            failed_requests: if counted && !success {
                (self.failed_requests + 1) as u64
            } else {
                self.failed_requests
            },
            avg_latency_us: ewma_next(self.avg_latency_us, latency_ms),
            last_updated: now,
            ..self
        }
    }

    /// Counts one more request into the ledger.
    pub fn observe(&mut self, latency_ms: u64, success: bool, now: Timestamp)
        requires
            old(self).wf(),
        ensures
            *final(self) == old(self).observed(latency_ms, success, now),
            final(self).wf(),
    {
        if self.total_requests < u64::MAX {
            self.total_requests = self.total_requests + 1;
            if success {
                self.successful_requests = self.successful_requests + 1;
            } else {
                self.failed_requests = self.failed_requests + 1;
            }
        }
        let mixed: u128 = (9u128 * (self.avg_latency_us as u128) + 1000u128 * (latency_ms as u128))
            / 10u128;
        self.avg_latency_us = if mixed > u64::MAX as u128 {
            u64::MAX
        } else {
            mixed as u64
        };
        self.last_updated = now;
    }
}

/// What the outside may see of a model.
#[derive(Debug, Clone, PartialEq)]
pub struct ModelInfo {
    pub id: ModelId,
    pub name: String,
    pub model_type: ModelType,
    pub status: ModelStatus,
    pub config: ModelConfig,
    pub metadata: ModelMetadata,
    pub resource_usage: Option<ResourceUsage>,
    pub performance_stats: PerformanceStats,
    pub health_status: HealthStatus,
}

/// The handle under which a backend holds a loaded model.
#[derive(Debug, PartialEq)]
pub struct ModelInstance {
    pub id: String,
    pub plugin_id: PluginId,
    /// The backend's own token for the loaded model.
    pub handle: u64,
    /// Whether the backend takes concurrent calls on this handle.
    pub supports_batching: bool,
    /// Most inputs the backend takes in one call.
    pub max_batch_size: u32,
}

impl Clone for ModelInstance {
    fn clone(&self) -> (copy: Self)
        ensures
            copy == *self,
    {
        ModelInstance {
            id: self.id.clone(),
            plugin_id: self.plugin_id.clone(),
            handle: self.handle,
            supports_batching: self.supports_batching,
            max_batch_size: self.max_batch_size,
        }
    }
}

/// A model as the registry holds it.
#[derive(Debug, Clone, PartialEq)]
pub struct Model {
    pub info: ModelInfo,
    /// The backend's handle; present exactly while the model is loaded.
    pub instance: Option<ModelInstance>,
    pub is_warm: bool,
    pub last_accessed: Timestamp,
    /// When the model last became loaded. Never moves backwards.
    pub loaded_at: Option<Timestamp>,
}

/// The later of a recorded time and a new one.
pub open spec fn later_of(recorded: Option<Timestamp>, now: Timestamp) -> Timestamp {
    match recorded {
        Some(t) => if t > now {
            t
        } else {
            now
        },
        None => now,
    }
}

impl Model {
    /// The invariant of a model: it holds a handle exactly while it is
    /// loaded, a loaded model knows since when, and its ledger adds up.
    pub open spec fn wf(self) -> bool {
        &&& self.instance is Some <==> self.info.status.loaded()
        &&& self.info.status.loaded() ==> self.loaded_at is Some
        &&& self.info.performance_stats.wf()
    }

    /// Whether the model meets its invariant.
    pub fn is_well_formed(&self) -> (r: bool)
        ensures
            r == self.wf(),
    {
        let loaded = self.info.status.is_loaded();
        let stats = &self.info.performance_stats;
        let adds_up = stats.successful_requests <= stats.total_requests && stats.failed_requests
            == stats.total_requests - stats.successful_requests;
        self.instance.is_some() == loaded && (!loaded || self.loaded_at.is_some()) && adds_up
    }

    /// Whether `m` is the model that a registration at time `now` creates
    /// from the given parts.
    pub open spec fn is_new(
        m: Model,
        id: ModelId,
        name: String,
        model_type: ModelType,
        config: ModelConfig,
        now: Timestamp,
    ) -> bool {
        &&& m.info.id == id
        &&& m.info.name == name
        &&& m.info.model_type == model_type
        &&& m.info.status is Initializing
        &&& m.info.config == config
        &&& m.info.metadata.author is None
        &&& m.info.metadata.description is None
        &&& m.info.metadata.license is None
        &&& m.info.metadata.tags@.len() == 0
        &&& m.info.metadata.version@ == "1.0.0"@
        &&& m.info.metadata.created_at == now
        &&& m.info.metadata.updated_at == now
        &&& m.info.metadata.custom_metadata@ == Map::<String, serde_json::Value>::empty()
        &&& m.info.resource_usage is None
        &&& m.info.performance_stats == PerformanceStats::empty_at(now)
        &&& m.info.health_status == HealthStatus::Unknown
        &&& m.instance is None
        &&& !m.is_warm
        &&& m.last_accessed == now
        &&& m.loaded_at is None
    }

    /// A model as registered at time `now`: initializing, of unknown health,
    /// without a handle and with an empty ledger.
    pub fn new_at(
        id: ModelId,
        name: String,
        model_type: ModelType,
        config: ModelConfig,
        now: Timestamp,
    ) -> (m: Self)
        ensures
            Model::is_new(m, id, name, model_type, config, now),
            m.wf(),
    {
        let metadata = ModelMetadata {
            author: None,
            description: None,
            license: None,
            tags: Vec::new(),
            version: "1.0.0".to_owned(),
            created_at: now,
            updated_at: now,
            custom_metadata: HashMap::new(),
        };
        let performance_stats = PerformanceStats {
            total_requests: 0,
            successful_requests: 0,
            failed_requests: 0,
            avg_latency_us: 0,
            p95_latency_us: 0,
            p99_latency_us: 0,
            avg_throughput_milli_rps: 0,
            last_updated: now,
        };
        let info = ModelInfo {
            id,
            name,
            model_type,
            status: ModelStatus::Initializing,
            config,
            metadata,
            resource_usage: None,
            performance_stats,
            health_status: HealthStatus::Unknown,
        };
        Model { info, instance: None, is_warm: false, last_accessed: now, loaded_at: None }
    }

    /// A model as registered now, by the system clock.
    pub fn new(id: ModelId, name: String, model_type: ModelType, config: ModelConfig) -> (m: Self)
        ensures
            exists|now: Timestamp| now >= 0 && Model::is_new(m, id, name, model_type, config, now),
            m.wf(),
    {
        let now = utc_now_millis();
        Model::new_at(id, name, model_type, config, now)
    }

    /// Whether a change of status to `to` is accepted: the state machine
    /// allows it, and it does not claim a load that no handle backs.
    pub open spec fn accepts(self, to: ModelStatus) -> bool {
        self.info.status.can_become(to) && (to.loaded() ==> self.info.status.loaded())
    }

    /// The model after an accepted change of status to `to` at time `now`.
    pub open spec fn with_status(self, to: ModelStatus, now: Timestamp) -> Model {
        Model {
            info: ModelInfo {
                status: to,
                metadata: ModelMetadata { updated_at: now, ..self.info.metadata },
                ..self.info
            },
            instance: if to.loaded() {
                self.instance
            } else {
                None
            },
            loaded_at: if to.loaded() {
                Some(later_of(self.loaded_at, now))
            } else {
                self.loaded_at
            },
            ..self
        }
    }

    /// Moves the model to `status` at time `now`, if the change is accepted.
    ///
    /// On success the handle that the model no longer needs is returned, for
    /// the caller to give back to its backend. A change that leaves the
    /// loaded states gives the handle up; one between them keeps it. A
    /// refused change leaves the model as it was.
    pub fn update_status_at(&mut self, status: ModelStatus, now: Timestamp) -> (r: Result<
        Option<ModelInstance>,
        UniModelError,
    >)
        requires
            old(self).wf(),
        ensures
            final(self).wf(),
            match r {
                Ok(released) => {
                    &&& old(self).accepts(status)
                    &&& *final(self) == old(self).with_status(status, now)
                    &&& released == if status.loaded() {
                        None
                    } else {
                        old(self).instance
                    }
                },
                Err(e) => {
                    &&& !old(self).accepts(status)
                    &&& *final(self) == *old(self)
                    &&& e is Internal
                    &&& e.message() == "Invalid status transition"@
                },
            },
    {
        let to_loaded = status.is_loaded();
        if !self.info.status.allows(&status) || (to_loaded && !self.info.status.is_loaded()) {
            return Err(UniModelError::internal("Invalid status transition"));
        }
        self.info.status = status;
        self.info.metadata.updated_at = now;
        if to_loaded {
            let at = match self.loaded_at {
                Some(t) => if t > now {
                    t
                } else {
                    now
                },
                None => now,
            };
            self.loaded_at = Some(at);
            Ok(None)
        } else {
            let released = self.instance.take();
            Ok(released)
        }
    }

    /// Moves the model to `status` now, by the system clock.
    pub fn update_status(&mut self, status: ModelStatus) -> (r: Result<
        Option<ModelInstance>,
        UniModelError,
    >)
        requires
            old(self).wf(),
        ensures
            final(self).wf(),
            match r {
                Ok(released) => {
                    &&& old(self).accepts(status)
                    &&& exists|now: Timestamp|
                        now >= 0 && *final(self) == old(self).with_status(status, now)
                    &&& released == if status.loaded() {
                        None
                    } else {
                        old(self).instance
                    }
                },
                Err(e) => {
                    &&& !old(self).accepts(status)
                    &&& *final(self) == *old(self)
                    &&& e is Internal
                    &&& e.message() == "Invalid status transition"@
                },
            },
    {
        let now = utc_now_millis();
        self.update_status_at(status, now)
    }

    /// The model after its backend reported it loaded at time `now`.
    pub open spec fn with_instance(self, instance: ModelInstance, now: Timestamp) -> Model {
        Model {
            info: ModelInfo {
                status: ModelStatus::Ready,
                metadata: ModelMetadata { updated_at: now, ..self.info.metadata },
                health_status: HealthStatus::Healthy,
                ..self.info
            },
            instance: Some(instance),
            loaded_at: Some(later_of(self.loaded_at, now)),
            ..self
        }
    }

    /// Takes the handle of a finished load: a loading model becomes ready and
    /// healthy. A model in any other state refuses the handle and hands it
    /// back, for the caller to return it to the backend.
    pub fn attach_instance(&mut self, instance: ModelInstance, now: Timestamp) -> (r: Result<
        (),
        ModelInstance,
    >)
        requires
            old(self).wf(),
        ensures
            final(self).wf(),
            match r {
                Ok(()) => old(self).info.status is Loading && *final(self)
                    == old(self).with_instance(instance, now),
                Err(back) => !(old(self).info.status is Loading) && *final(self) == *old(self)
                    && back == instance,
            },
    {
        if !matches!(self.info.status, ModelStatus::Loading) {
            return Err(instance);
        }
        self.info.status = ModelStatus::Ready;
        self.info.metadata.updated_at = now;
        self.info.health_status = HealthStatus::Healthy;
        self.instance = Some(instance);
        let at = match self.loaded_at {
            Some(t) => if t > now {
                t
            } else {
                now
            },
            None => now,
        };
        self.loaded_at = Some(at);
        Ok(())
    }

    /// The model after an access at time `now`.
    pub open spec fn touched(self, now: Timestamp) -> Model {
        Model { last_accessed: now, ..self }
    }

    /// Records an access at time `now`.
    pub fn touch_at(&mut self, now: Timestamp)
        ensures
            *final(self) == old(self).touched(now),
    {
        self.last_accessed = now;
    }

    /// Records an access now, by the system clock.
    pub fn touch(&mut self)
        ensures
            exists|now: Timestamp| now >= 0 && *final(self) == old(self).touched(now),
    {
        let now = utc_now_millis();
        self.touch_at(now);
    }

    /// Whether a backend holds the model loaded.
    pub fn is_loaded(&self) -> (r: bool)
        ensures
            r == self.info.status.loaded(),
    {
        self.info.status.is_loaded()
    }

    /// Whether the model reports good health.
    pub fn is_healthy(&self) -> (r: bool)
        ensures
            r == (self.info.health_status == HealthStatus::Healthy),
    {
        self.info.health_status == HealthStatus::Healthy
    }

    /// A model is available when it is loaded and healthy.
    pub open spec fn available(self) -> bool {
        self.info.status.loaded() && self.info.health_status == HealthStatus::Healthy
    }

    /// Whether the model can serve a prediction.
    pub fn is_available(&self) -> (r: bool)
        ensures
            r == self.available(),
    {
        self.is_loaded() && self.is_healthy()
    }

    /// The model after one more request went into its ledger.
    pub open spec fn with_observation(self, latency_ms: u64, success: bool, now: Timestamp) -> Model {
        Model {
            info: ModelInfo {
                performance_stats: self.info.performance_stats.observed(latency_ms, success, now),
                ..self.info
            },
            ..self
        }
    }

    /// Counts a request that took `latency_ms` milliseconds into the ledger,
    /// at time `now`.
    pub fn update_performance_stats_at(&mut self, latency_ms: u64, success: bool, now: Timestamp)
        requires
            old(self).wf(),
        ensures
            *final(self) == old(self).with_observation(latency_ms, success, now),
            final(self).wf(),
    {
        self.info.performance_stats.observe(latency_ms, success, now);
    }

    /// Counts a request into the ledger now, by the system clock.
    pub fn update_performance_stats(&mut self, latency_ms: u64, success: bool)
        requires
            old(self).wf(),
        ensures
            exists|now: Timestamp|
                now >= 0 && *final(self) == old(self).with_observation(latency_ms, success, now),
            final(self).wf(),
    {
        let now = utc_now_millis();
        self.update_performance_stats_at(latency_ms, success, now);
    }
}

/// Nothing follows the unloaded state.
pub proof fn lemma_unloaded_is_terminal(m: Model, to: ModelStatus)
    requires
        m.info.status is Unloaded,
    ensures
        !m.info.status.can_become(to),
        !m.accepts(to),
{
}

/// A loaded model leaves the loaded states only into an error or into the
/// unloaded state, and then it gives its handle up.
pub proof fn lemma_loaded_leaves_to_error_or_unloaded(m: Model, to: ModelStatus, now: Timestamp)
    requires
        m.wf(),
        m.info.status.loaded(),
        m.accepts(to),
        !to.loaded(),
    ensures
        to is Error || to is Unloaded,
        m.with_status(to, now).instance is None,
        m.with_status(to, now).wf(),
{
}

/// The time at which a model became loaded never moves backwards, whatever
/// the clock says: not by a change of status and not by a finished load.
pub proof fn lemma_load_time_never_moves_back(
    m: Model,
    to: ModelStatus,
    instance: ModelInstance,
    now: Timestamp,
)
    ensures
        m.loaded_at matches Some(before) ==> {
            &&& m.with_status(to, now).loaded_at matches Some(after) && after >= before
            &&& m.with_instance(instance, now).loaded_at matches Some(after) && after >= before
        },
        to.loaded() ==> m.with_status(to, now).loaded_at is Some,
        m.with_instance(instance, now).loaded_at is Some,
{
}

} // verus!
