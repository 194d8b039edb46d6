//! Model administration: checks a model's configuration, then lets the
//! registry do the work.

use crate::common::error::{ModelFault, UniModelError};
use crate::common::types::{ModelId, Timestamp};
use crate::domain::model::model_entity::{ModelConfig, ModelInfo, ModelInstance, ModelType};
use crate::domain::service::model_manager::{
    holds_fresh_id, holds_id, is_registered, lookup, without, ModelManager,
};
use vstd::prelude::*;

verus! {

/// The administration of models.
#[derive(Debug)]
pub struct ModelService {
    /// The registry behind the service.
    pub model_manager: ModelManager,
}

impl ModelService {
    /// The message of the first rule that a model's configuration breaks,
    /// in the order in which the rules are checked; `None` when it breaks
    /// none: the model has a path and a backend, names a device, and its
    /// batch size is above zero.
    pub open spec fn config_fault(config: ModelConfig) -> Option<Seq<char>> {
        if config.model_path@.len() == 0 {
            Some("Model path cannot be empty"@)
        } else if config.backend@.len() == 0 {
            Some("Backend cannot be empty"@)
        } else if config.device.device_ids@.len() == 0 {
            Some("At least one device ID must be specified"@)
        } else if config.batch_config.max_batch_size == 0 {
            Some("Max batch size must be greater than 0"@)
        } else {
            None
        }
    }

    /// A service over the given registry.
    pub fn new(model_manager: ModelManager) -> (service: Self)
        ensures
            service.model_manager == model_manager,
    {
        ModelService { model_manager }
    }

    /// Checks the rules of a model's configuration in order and reports the
    /// first that is broken.
    pub fn validate_model_config(config: &ModelConfig) -> (r: Result<(), UniModelError>)
        ensures
            match r {
                Ok(()) => ModelService::config_fault(*config) is None,
                Err(e) => e is Validation && ModelService::config_fault(*config) == Some(e.message()),
            },
    {
        if config.model_path.as_str().is_empty() {
            return Err(UniModelError::validation("Model path cannot be empty"));
        }
        if config.backend.as_str().is_empty() {
            return Err(UniModelError::validation("Backend cannot be empty"));
        }
        if config.device.device_ids.len() == 0 {
            return Err(UniModelError::validation("At least one device ID must be specified"));
        }
        if config.batch_config.max_batch_size == 0 {
            return Err(UniModelError::validation("Max batch size must be greater than 0"));
        }
        Ok(())
    }

    /// Registers a model under `id` at time `now`, if its configuration
    /// breaks no rule and the registry admits it. A refusal changes nothing.
    pub fn register_model_as(
        &mut self,
        id: ModelId,
        name: String,
        model_type: ModelType,
        config: ModelConfig,
        now: Timestamp,
    ) -> (r: Result<ModelId, UniModelError>)
        requires
            old(self).model_manager.wf(),
        ensures
            final(self).model_manager.wf(),
            final(self).model_manager.capacity() == old(self).model_manager.capacity(),
            match r {
                Ok(given) => {
                    &&& ModelService::config_fault(config) is None
                    &&& old(self).model_manager@.len() < old(self).model_manager.capacity()
                    &&& !holds_id(old(self).model_manager@, id@)
                    &&& given@ == id@
                    &&& final(self).model_manager@.len() == old(self).model_manager@.len() + 1
                    &&& final(self).model_manager@.drop_last() == old(self).model_manager@
                    &&& is_registered(
                        final(self).model_manager@.last(),
                        id,
                        name,
                        model_type,
                        config,
                        now,
                    )
                },
                Err(e) => {
                    &&& final(self).model_manager@ == old(self).model_manager@
                    &&& match ModelService::config_fault(config) {
                        Some(message) => e is Validation && e.message() == message,
                        None => if old(self).model_manager@.len() >= old(self).model_manager.capacity() {
                            e.is_model_fault(ModelFault::CapacityExceeded) && e.message()
                                == "Maximum number of models reached"@
                        } else {
                            holds_id(old(self).model_manager@, id@) && e is Internal && e.message()
                                == "Model id already registered"@
                        },
                    }
                },
            },
    {
        match ModelService::validate_model_config(&config) {
            Err(e) => Err(e),
            Ok(()) => self.model_manager.register_model_as(id, name, model_type, config, now),
        }
    }

    /// Registers a model under a fresh random id, at the time of the system
    /// clock, if its configuration breaks no rule and the registry admits it.
    /// A refusal changes nothing.
    pub fn register_model(&mut self, name: String, model_type: ModelType, config: ModelConfig) -> (r:
        Result<ModelId, UniModelError>)
        requires
            old(self).model_manager.wf(),
        ensures
            final(self).model_manager.wf(),
            final(self).model_manager.capacity() == old(self).model_manager.capacity(),
            ModelService::config_fault(config) is Some ==> r is Err,
            old(self).model_manager@.len() >= old(self).model_manager.capacity() ==> r is Err,
            ModelService::config_fault(config) is None && old(self).model_manager@.len()
                < old(self).model_manager.capacity()
                && !holds_fresh_id(old(self).model_manager@) ==> r is Ok,
            match r {
                Ok(given) => {
                    &&& ModelService::config_fault(config) is None
                    &&& old(self).model_manager@.len() < old(self).model_manager.capacity()
                    &&& given@.len() == 36
                    &&& !holds_id(old(self).model_manager@, given@)
                    &&& lookup(final(self).model_manager@, given@) == Some(
                        final(self).model_manager@.last(),
                    )
                    &&& final(self).model_manager@.len() == old(self).model_manager@.len() + 1
                    &&& final(self).model_manager@.drop_last() == old(self).model_manager@
                    &&& final(self).model_manager@.last().info.id@ == given@
                    &&& final(self).model_manager@.last().info.name == name
                    &&& final(self).model_manager@.last().info.model_type == model_type
                    &&& final(self).model_manager@.last().info.config == config
                    &&& final(self).model_manager@.last().info.status is Loading
                },
                Err(e) => {
                    &&& final(self).model_manager@ == old(self).model_manager@
                    &&& match ModelService::config_fault(config) {
                        Some(message) => e is Validation && e.message() == message,
                        None => if old(self).model_manager@.len() >= old(self).model_manager.capacity() {
                            e.is_model_fault(ModelFault::CapacityExceeded) && e.message()
                                == "Maximum number of models reached"@
                        } else {
                            holds_fresh_id(old(self).model_manager@) && e is Internal && e.message()
                                == "Model id already registered"@
                        },
                    }
                },
            },
    {
        match ModelService::validate_model_config(&config) {
            Err(e) => Err(e),
            Ok(()) => self.model_manager.register_model(name, model_type, config),
        }
    }

    /// Removes the model that goes by `id`; its handle, if it had one, comes
    /// back for the caller to return to the backend.
    pub fn unregister_model(&mut self, id: &ModelId) -> (r: Result<
        Option<ModelInstance>,
        UniModelError,
    >)
        requires
            old(self).model_manager.wf(),
        ensures
            final(self).model_manager.wf(),
            final(self).model_manager.capacity() == old(self).model_manager.capacity(),
            !holds_id(final(self).model_manager@, id@),
            lookup(final(self).model_manager@, id@) is None,
            final(self).model_manager@ == without(old(self).model_manager@, id@),
            match r {
                Ok(released) => lookup(old(self).model_manager@, id@) matches Some(m) && released
                    == m.instance,
                Err(e) => lookup(old(self).model_manager@, id@) is None
                    && final(self).model_manager@ == old(self).model_manager@ && e.is_model_fault(
                    ModelFault::NotFound,
                ) && e.message() == "Model not found"@,
            },
    {
        self.model_manager.unregister_model(id)
    }

    /// What the outside may see of the model that goes by `id`.
    pub fn get_model_info(&self, id: &ModelId) -> (r: Result<&ModelInfo, UniModelError>)
        ensures
            match r {
                Ok(info) => lookup(self.model_manager@, id@) matches Some(m) && *info == m.info,
                Err(e) => lookup(self.model_manager@, id@) is None && e.is_model_fault(
                    ModelFault::NotFound,
                ) && e.message() == "Model not found"@,
            },
    {
        self.model_manager.get_model_info(id)
    }

    /// What the outside may see of every registered model, in the order of
    /// registration.
    pub fn list_models(&self) -> (r: Result<Vec<&ModelInfo>, UniModelError>)
        ensures
            r matches Ok(infos) && infos@.len() == self.model_manager@.len() && forall|i: int|
                0 <= i < infos@.len() ==> *(#[trigger] infos@[i]) == self.model_manager@[i].info,
    {
        self.model_manager.list_models()
    }
}

} // verus!
