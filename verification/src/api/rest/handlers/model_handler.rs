//! Model administration over REST: what a call carries, what it answers,
//! and how a failure is shown.

use crate::application::services::model_service::ModelService;
use crate::common::error::{ModelFault, UniModelError};
use crate::common::types::{BatchConfig, ModelId};
use crate::domain::model::model_entity::{
    DeviceConfig, DeviceType, MemoryOptimization, ModelConfig, ModelInfo, ModelInstance,
    ModelType, OptimizationConfig,
};
use crate::domain::service::model_manager::{holds_fresh_id, holds_id, lookup, without};
use std::collections::HashMap;
use vstd::prelude::*;
use vstd::string::StringExecFns;

verus! {

/// The members of a JSON object, by name, as `serde_json` holds them; no
/// member for a document that is not an object.
pub uninterp spec fn json_members(value: serde_json::Value) -> Map<String, serde_json::Value>;

/// `serde_json::Value::as_object`, copied into a map: the members of an
/// object, and an empty map for any other document.
#[verifier::external_body]
fn object_members(value: &serde_json::Value) -> (members: HashMap<String, serde_json::Value>)
    ensures
        members@ == json_members(*value),
{
    value.as_object().cloned().unwrap_or_default().into_iter().collect()
}

/// The body of a registration call.
#[derive(Debug, Clone, PartialEq)]
pub struct RegisterModelRequest {
    pub name: String,
    pub model_type: ModelType,
    pub backend: String,
    pub model_path: String,
    /// Options for the backend, as a JSON object.
    pub config: Option<serde_json::Value>,
}

/// The answer to a registration call.
#[derive(Debug, Clone, PartialEq)]
pub struct RegisterModelResponse {
    pub model_id: ModelId,
    pub status: String,
    pub message: String,
}

/// The answer to a listing call.
#[derive(Debug, PartialEq)]
pub struct ListModelsResponse<'a> {
    pub models: Vec<&'a ModelInfo>,
    pub total: usize,
}

/// The answer to an unregistration call.
#[derive(Debug, PartialEq)]
pub struct UnregisterModelResponse {
    pub status: String,
    pub message: String,
    /// The handle of the removed model, for the caller to return to the
    /// backend. It is not part of what goes over the wire.
    pub released: Option<ModelInstance>,
}

/// How a failure is shown to a caller.
#[derive(Debug, Clone, PartialEq)]
pub struct ErrorBody {
    /// The HTTP status.
    pub status: u16,
    /// The stable code of the error's kind.
    pub error: String,
    /// The text of the error.
    pub message: String,
}

impl ErrorBody {
    /// Whether `self` shows the error `e`.
    pub open spec fn shows(self, e: UniModelError) -> bool {
        &&& self.status == e.status()
        &&& self.error@ == e.code()
        &&& self.message@ == e.text()
    }

    /// Whether `self` shows a model error of the given cause and message:
    /// status 404 for a model that is not registered, 503 for any other cause.
    pub open spec fn shows_model_fault(self, fault: (ModelFault, Seq<char>)) -> bool {
        &&& self.status == if fault.0 == ModelFault::NotFound {
            404u16
        } else {
            503u16
        }
        &&& self.error@ == "MODEL_ERROR"@
        &&& self.message@ == "Model error: "@ + fault.1
    }

    /// Whether `self` shows the refusal of an input with the given message.
    pub open spec fn shows_validation(self, message: Seq<char>) -> bool {
        &&& self.status == 400
        &&& self.error@ == "VALIDATION_ERROR"@
        &&& self.message@ == "Validation error: "@ + message
    }

    /// Whether `self` shows the refusal of intake: the shutdown error of a
    /// stopped dispatcher, else the overload error.
    pub open spec fn shows_refusal(self, stopped: bool) -> bool {
        if stopped {
            &&& self.status == 500
            &&& self.error@ == "INTERNAL_ERROR"@
            &&& self.message@ == "Internal error: "@ + "Batch processor is shut down"@
        } else {
            &&& self.status == 429
            &&& self.error@ == "BATCH_ERROR"@
            &&& self.message@ == "Batch processing error: "@
                + "Ingress queue is above its high-watermark"@
        }
    }

    /// The body that shows the error `e`: its status, its code and its text.
    pub fn from_error(e: &UniModelError) -> (body: Self)
        ensures
            body.shows(*e),
    {
        ErrorBody {
            status: e.status_code(),
            error: e.error_code().to_owned(),
            message: e.to_string(),
        }
    }
}

/// Whether `config` is the configuration that a registration call stands
/// for: the call's path, backend and options, the first CUDA device, the
/// key-value cache and graph optimization on, no quantization, and the
/// default batch policy.
pub open spec fn is_request_config(config: ModelConfig, request: RegisterModelRequest) -> bool {
    &&& config.model_path == request.model_path
    &&& config.config_path is None
    &&& config.tokenizer_path is None
    &&& config.backend == request.backend
    &&& config.device.device_type == DeviceType::CUDA
    &&& config.device.device_ids@ == seq![0u32]
    &&& config.device.memory_limit_mb is None
    &&& !config.device.mixed_precision
    &&& config.optimization == (OptimizationConfig {
        kv_cache: true,
        quantization: None,
        graph_optimization: true,
        inference_parallelism: 1,
        memory_optimization: MemoryOptimization::Medium,
    })
    &&& config.batch_config == (BatchConfig {
        max_batch_size: 32,
        max_wait_time_ms: 50,
        dynamic_padding: true,
        timeout_ms: 30000,
    })
    &&& config.custom_params@ == match request.config {
        Some(value) => json_members(value),
        None => Map::<String, serde_json::Value>::empty(),
    }
}

/// The message of the first rule that a registration call breaks: it names
/// a model path, then a backend.
pub open spec fn request_fault(request: RegisterModelRequest) -> Option<Seq<char>> {
    if request.model_path@.len() == 0 {
        Some("Model path cannot be empty"@)
    } else if request.backend@.len() == 0 {
        Some("Backend cannot be empty"@)
    } else {
        None
    }
}

/// The text that tells of a registration.
pub open spec fn registered_message(name: Seq<char>) -> Seq<char> {
    "Model '"@ + name + "' registered successfully"@
}

/// The text that tells of an unregistration.
pub open spec fn unregistered_message(id: Seq<char>) -> Seq<char> {
    "Model '"@ + id + "' unregistered successfully"@
}

/// The name, the type and the configuration that a registration call
/// stands for.
pub fn model_config_from_request(request: RegisterModelRequest) -> (parts: (
    String,
    ModelType,
    ModelConfig,
))
    ensures
        parts.0 == request.name,
        parts.1 == request.model_type,
        is_request_config(parts.2, request),
{
    let custom_params = match &request.config {
        Some(value) => object_members(value),
        None => HashMap::new(),
    };
    let mut device_ids: Vec<u32> = Vec::new();
    device_ids.push(0);
    let config = ModelConfig {
        model_path: request.model_path,
        config_path: None,
        tokenizer_path: None,
        backend: request.backend,
        device: DeviceConfig {
            device_type: DeviceType::CUDA,
            device_ids,
            memory_limit_mb: None,
            mixed_precision: false,
        },
        optimization: OptimizationConfig {
            kv_cache: true,
            quantization: None,
            graph_optimization: true,
            inference_parallelism: 1,
            memory_optimization: MemoryOptimization::Medium,
        },
        batch_config: BatchConfig::default(),
        custom_params,
    };
    (request.name, request.model_type, config)
}

/// Registers the model that the call stands for, under a fresh id.
///
/// On success the registry holds the model, handed to loading, and the
/// answer names its id. A failure changes nothing and is shown as the
/// service reports it.
pub fn register_model(service: &mut ModelService, request: RegisterModelRequest) -> (r: Result<
    RegisterModelResponse,
    ErrorBody,
>)
    requires
        old(service).model_manager.wf(),
    ensures
        final(service).model_manager.wf(),
        final(service).model_manager.capacity() == old(service).model_manager.capacity(),
        old(service).model_manager@.len() >= old(service).model_manager.capacity() ==> r is Err,
        request_fault(request) is None && old(service).model_manager@.len()
            < old(service).model_manager.capacity()
            && !holds_fresh_id(old(service).model_manager@) ==> r is Ok,
        r matches Ok(response) ==> {
            let after = final(service).model_manager@;
            &&& old(service).model_manager@.len() < old(service).model_manager.capacity()
            &&& response.model_id@.len() == 36
            &&& !holds_id(old(service).model_manager@, response.model_id@)
            &&& lookup(after, response.model_id@) == Some(after.last())
            &&& after.len() == old(service).model_manager@.len() + 1
            &&& after.drop_last() == old(service).model_manager@
            &&& after.last().info.id@ == response.model_id@
            &&& after.last().info.name == request.name
            &&& after.last().info.model_type == request.model_type
            &&& is_request_config(after.last().info.config, request)
            &&& after.last().info.status is Loading
        },
        r matches Ok(response) ==> response.status@ == "success"@ && response.message@
            == registered_message(request.name@),
        r matches Err(body) ==> final(service).model_manager@ == old(service).model_manager@,
        r matches Err(body) ==> match request_fault(request) {
            Some(message) => body.status == 400 && body.error@ == "VALIDATION_ERROR"@
                && body.message@ == "Validation error: "@ + message,
            None => if old(service).model_manager@.len() >= old(service).model_manager.capacity() {
                body.status == 503 && body.error@ == "MODEL_ERROR"@ && body.message@
                    == "Model error: "@ + "Maximum number of models reached"@
            } else {
                holds_fresh_id(old(service).model_manager@) && body.status == 500 && body.error@
                    == "INTERNAL_ERROR"@ && body.message@ == "Internal error: "@
                    + "Model id already registered"@
            },
        },
        request_fault(request) is Some ==> r is Err,
{
    let shown = request.name.clone();
    let (name, model_type, config) = model_config_from_request(request);
    match service.register_model(name, model_type, config) {
        Ok(model_id) => {
            let message = "Model '".to_owned().concat(shown.as_str()).concat(
                "' registered successfully",
            );
            assert(message@ == registered_message(request.name@));
            assert(service.model_manager@.drop_last() == old(service).model_manager@);
            Ok(RegisterModelResponse { model_id, status: "success".to_owned(), message })
        },
        Err(e) => {
            Err(ErrorBody::from_error(&e))
        },
    }
}

/// Lists what the outside may see of every registered model, in the order
/// of registration, with their number.
pub fn list_models(service: &ModelService) -> (r: Result<ListModelsResponse<'_>, ErrorBody>)
    ensures
        r matches Ok(response) && response.total == service.model_manager@.len()
            && response.models@.len() == service.model_manager@.len() && forall|i: int|
            0 <= i < response.models@.len() ==> *(#[trigger] response.models@[i])
                == service.model_manager@[i].info,
{
    match service.list_models() {
        Ok(models) => {
            let total = models.len();
            Ok(ListModelsResponse { models, total })
        },
        Err(e) => Err(ErrorBody::from_error(&e)),
    }
}

/// Shows what the outside may see of the model that goes by `model_id`; an
/// id that is not registered is answered with status 404.
pub fn get_model<'a>(service: &'a ModelService, model_id: &ModelId) -> (r: Result<
    &'a ModelInfo,
    ErrorBody,
>)
    ensures
        match r {
            Ok(info) => lookup(service.model_manager@, model_id@) matches Some(m) && *info == m.info,
            Err(body) => lookup(service.model_manager@, model_id@) is None && body.status == 404
                && body.error@ == "MODEL_ERROR"@ && body.message@ == "Model error: "@
                + "Model not found"@,
        },
{
    match service.get_model_info(model_id) {
        Ok(info) => Ok(info),
        Err(e) => Err(ErrorBody::from_error(&e)),
    }
}

/// Removes the model that goes by `model_id`; an id that is not registered
/// is answered with status 404 and nothing changes.
pub fn unregister_model(service: &mut ModelService, model_id: &ModelId) -> (r: Result<
    UnregisterModelResponse,
    ErrorBody,
>)
    requires
        old(service).model_manager.wf(),
    ensures
        final(service).model_manager.wf(),
        final(service).model_manager.capacity() == old(service).model_manager.capacity(),
        !holds_id(final(service).model_manager@, model_id@),
        lookup(final(service).model_manager@, model_id@) is None,
        final(service).model_manager@ == without(old(service).model_manager@, model_id@),
        match r {
            Ok(response) => {
                &&& lookup(old(service).model_manager@, model_id@) matches Some(m)
                    && response.released == m.instance
                &&& response.status@ == "success"@
                &&& response.message@ == unregistered_message(model_id@)
            },
            Err(body) => {
                &&& lookup(old(service).model_manager@, model_id@) is None
                &&& final(service).model_manager@ == old(service).model_manager@
                &&& body.status == 404
                &&& body.error@ == "MODEL_ERROR"@
                &&& body.message@ == "Model error: "@ + "Model not found"@
            },
        },
{
    match service.unregister_model(model_id) {
        Ok(released) => {
            let message = "Model '".to_owned().concat(model_id.as_str()).concat(
                "' unregistered successfully",
            );
            Ok(UnregisterModelResponse { status: "success".to_owned(), message, released })
        },
        Err(e) => Err(ErrorBody::from_error(&e)),
    }
}

} // verus!
