//! Tests of the REST bodies and of the engine as one value.

use unimodel::api::rest::handlers::model_handler::{
    get_model, list_models, model_config_from_request, register_model, unregister_model,
    ErrorBody, RegisterModelRequest,
};
use unimodel::api::rest::handlers::predict_handler::{
    batch_predict, batch_response, batch_response_at, merge_batch_metrics, predict,
    predict_response, BatchPredictRequest, PredictRequest,
};
use unimodel::application::services::model_service::ModelService;
use unimodel::application::services::prediction_service::PredictionService;
use unimodel::common::error::UniModelError;
use unimodel::common::types::{
    BatchConfig, HealthStatus, InputData, OutputData, PerformanceMetrics, PredictionParameters,
};
use unimodel::domain::model::model_entity::{
    DeviceType, MemoryOptimization, ModelInstance, ModelStatus, ModelType,
};
use unimodel::domain::service::batch_processor::{
    BatchProcessor, PredictionResponse, ResponseMetadata,
};
use unimodel::domain::service::model_manager::ModelManager;
use unimodel::infrastructure::configuration::Config;
use unimodel::{UniModelServer, NAME, VERSION};

fn handler_request(name: &str, config: Option<serde_json::Value>) -> RegisterModelRequest {
    RegisterModelRequest {
        name: name.to_string(),
        model_type: ModelType::LLM,
        backend: "echo".to_string(),
        model_path: "/models/a.gguf".to_string(),
        config,
    }
}

fn handler_instance() -> ModelInstance {
    ModelInstance {
        id: "i".to_string(),
        plugin_id: "echo".to_string(),
        handle: 1,
        supports_batching: true,
        max_batch_size: 4,
    }
}

fn handler_response(id: &str, output: &str, generated: Option<u32>, input: Option<u32>) -> PredictionResponse {
    PredictionResponse {
        request_id: id.to_string(),
        model_id: "m".to_string(),
        output: OutputData::Text(output.to_string()),
        metadata: ResponseMetadata {
            model_version: format!("v-{}", id),
            backend: "echo".to_string(),
            custom_metadata: std::collections::HashMap::new(),
        },
        metrics: PerformanceMetrics {
            request_id: id.to_string(),
            start_time: 100,
            end_time: 200,
            total_latency_ms: 100,
            inference_latency_ms: 70,
            queue_wait_ms: 30,
            preprocessing_ms: 3,
            postprocessing_ms: 4,
            tokens_generated: generated,
            tokens_input: input,
            throughput_bits: Some(12.5f64.to_bits()),
            batch_size: 2,
            gpu_utilization_bits: Some(0.5f32.to_bits()),
            memory_usage_mb: Some(10),
        },
        timestamp: 200,
    }
}

#[test]
fn error_body_shows_status_code_and_text() {
    let body = ErrorBody::from_error(&UniModelError::model("Model not found"));
    assert_eq!(
        body,
        ErrorBody {
            status: 404,
            error: "MODEL_ERROR".to_string(),
            message: "Model error: Model not found".to_string(),
        }
    );
    let body = ErrorBody::from_error(&UniModelError::overloaded("busy"));
    assert_eq!((body.status, body.error.as_str()), (429, "BATCH_ERROR"));
}

#[test]
fn registration_call_stands_for_a_configuration() {
    let mut object = serde_json::Map::new();
    object.insert("threads".to_string(), serde_json::Value::from(4));
    object.insert("mode".to_string(), serde_json::Value::from("fast"));
    let request = handler_request("chat", Some(serde_json::Value::Object(object)));
    let (name, model_type, config) = model_config_from_request(request);
    assert_eq!(name, "chat");
    assert_eq!(model_type, ModelType::LLM);
    assert_eq!(config.model_path, "/models/a.gguf");
    assert_eq!(config.backend, "echo");
    assert_eq!(config.config_path, None);
    assert_eq!(config.tokenizer_path, None);
    assert_eq!(config.device.device_type, DeviceType::CUDA);
    assert_eq!(config.device.device_ids, vec![0]);
    assert_eq!(config.device.memory_limit_mb, None);
    assert!(!config.device.mixed_precision);
    assert!(config.optimization.kv_cache);
    assert_eq!(config.optimization.quantization, None);
    assert!(config.optimization.graph_optimization);
    assert_eq!(config.optimization.inference_parallelism, 1);
    assert_eq!(config.optimization.memory_optimization, MemoryOptimization::Medium);
    assert_eq!(config.batch_config, BatchConfig::default());
    assert_eq!(config.custom_params.len(), 2);
    assert_eq!(config.custom_params["threads"], serde_json::Value::from(4));
    assert_eq!(config.custom_params["mode"], serde_json::Value::from("fast"));

    // Options that are no object count as none.
    for options in [None, Some(serde_json::Value::from(3)), Some(serde_json::Value::Null)] {
        let (_, _, config) = model_config_from_request(handler_request("x", options));
        assert!(config.custom_params.is_empty());
    }
}

#[test]
fn model_calls_through_the_handlers() {
    let mut config = Config::default();
    config.engine.max_models = 1;
    let mut service = ModelService::new(ModelManager::new(&config).unwrap());
    assert_eq!(list_models(&service).unwrap().total, 0);

    let response = register_model(&mut service, handler_request("chat", None)).unwrap();
    assert_eq!(response.status, "success");
    assert_eq!(response.message, "Model 'chat' registered successfully");
    assert_eq!(response.model_id.len(), 36);
    let id = response.model_id.clone();

    let listed = list_models(&service).unwrap();
    assert_eq!(listed.total, 1);
    assert_eq!(listed.models[0].id, id);
    assert_eq!(listed.models[0].name, "chat");
    let info = get_model(&service, &id).unwrap();
    assert_eq!(info.status, ModelStatus::Loading);

    // A full registry answers 503, a broken call 400, an unknown id 404.
    let full = register_model(&mut service, handler_request("more", None)).unwrap_err();
    assert_eq!(
        full,
        ErrorBody {
            status: 503,
            error: "MODEL_ERROR".to_string(),
            message: "Model error: Maximum number of models reached".to_string(),
        }
    );
    let mut broken = handler_request("broken", None);
    broken.model_path = String::new();
    let refused = register_model(&mut service, broken).unwrap_err();
    assert_eq!(
        refused,
        ErrorBody {
            status: 400,
            error: "VALIDATION_ERROR".to_string(),
            message: "Validation error: Model path cannot be empty".to_string(),
        }
    );
    let mut broken = handler_request("broken", None);
    broken.backend = String::new();
    assert_eq!(
        register_model(&mut service, broken).unwrap_err().message,
        "Validation error: Backend cannot be empty"
    );
    let missing = get_model(&service, &"nope".to_string()).unwrap_err();
    assert_eq!(missing.status, 404);
    assert_eq!(missing.message, "Model error: Model not found");

    service.model_manager.complete_load(&id, Ok(handler_instance()), 5);
    let removed = unregister_model(&mut service, &id).unwrap();
    assert_eq!(removed.status, "success");
    assert_eq!(removed.message, format!("Model '{}' unregistered successfully", id));
    assert_eq!(removed.released, Some(handler_instance()));
    let again = unregister_model(&mut service, &id).unwrap_err();
    assert_eq!(again.status, 404);
    assert_eq!(again.error, "MODEL_ERROR");
    assert_eq!(list_models(&service).unwrap().total, 0);
}

#[test]
fn merged_metrics_of_a_batch_call() {
    let responses = vec![
        handler_response("r0", "a", Some(5), None),
        handler_response("r1", "b", Some(7), Some(2)),
        handler_response("r2", "c", None, Some(3)),
    ];
    let merged = merge_batch_metrics(&responses, "call".to_string(), 999);
    assert_eq!(
        merged,
        PerformanceMetrics {
            request_id: "call".to_string(),
            start_time: 100,
            end_time: 200,
            total_latency_ms: 100,
            inference_latency_ms: 70,
            queue_wait_ms: 30,
            preprocessing_ms: 3,
            postprocessing_ms: 4,
            tokens_generated: Some(12),
            tokens_input: Some(5),
            throughput_bits: Some(12.5f64.to_bits()),
            batch_size: 3,
            gpu_utilization_bits: Some(0.5f32.to_bits()),
            memory_usage_mb: Some(10),
        }
    );
    // No tokens at all are reported as none; sums hold at the largest count.
    let quiet = vec![handler_response("r0", "a", None, Some(0))];
    let merged = merge_batch_metrics(&quiet, "call".to_string(), 999);
    assert_eq!(merged.tokens_generated, None);
    assert_eq!(merged.tokens_input, None);
    assert_eq!(merged.batch_size, 1);
    let huge = vec![
        handler_response("r0", "a", Some(u32::MAX), Some(u32::MAX - 1)),
        handler_response("r1", "b", Some(1), Some(1)),
        handler_response("r2", "b", Some(1), None),
    ];
    let merged = merge_batch_metrics(&huge, "call".to_string(), 999);
    assert_eq!(merged.tokens_generated, Some(u32::MAX));
    assert_eq!(merged.tokens_input, Some(u32::MAX));

    let empty = merge_batch_metrics(&Vec::new(), "call".to_string(), 999);
    assert_eq!(
        empty,
        PerformanceMetrics {
            request_id: "call".to_string(),
            start_time: 999,
            end_time: 999,
            total_latency_ms: 0,
            inference_latency_ms: 0,
            queue_wait_ms: 0,
            preprocessing_ms: 0,
            postprocessing_ms: 0,
            tokens_generated: None,
            tokens_input: None,
            throughput_bits: None,
            batch_size: 0,
            gpu_utilization_bits: None,
            memory_usage_mb: None,
        }
    );
}

#[test]
fn one_answer_for_a_batch_call() {
    let responses =
        vec![handler_response("r0", "a", Some(1), None), handler_response("r1", "b", None, None)];
    let answer = batch_response_at("m".to_string(), responses.clone(), "call".to_string(), 500);
    assert_eq!(answer.request_id, "call");
    assert_eq!(answer.model_id, "m");
    assert_eq!(
        answer.outputs,
        vec![OutputData::Text("a".to_string()), OutputData::Text("b".to_string())]
    );
    assert_eq!(answer.metadata, responses[0].metadata);
    assert_eq!(answer.metrics, merge_batch_metrics(&responses, "call".to_string(), 500));
    assert_eq!(answer.timestamp, 500);

    let empty = batch_response_at("m".to_string(), Vec::new(), "call".to_string(), 500);
    assert!(empty.outputs.is_empty());
    assert_eq!(empty.metadata.model_version, "unknown");
    assert_eq!(empty.metadata.backend, "unknown");
    assert!(empty.metadata.custom_metadata.is_empty());
    assert_eq!(empty.metrics.batch_size, 0);

    let fresh = batch_response("m".to_string(), responses.clone());
    assert_eq!(fresh.request_id.len(), 36);
    assert_eq!(fresh.metrics.request_id, fresh.request_id);
    assert!(fresh.timestamp > 1_577_836_800_000);
    assert_eq!(fresh.outputs.len(), 2);

    let single = predict_response(responses[1].clone());
    assert_eq!(single.request_id, "r1");
    assert_eq!(single.output, OutputData::Text("b".to_string()));
    assert_eq!(single.metrics, responses[1].metrics);
    assert_eq!(single.metadata, responses[1].metadata);
    assert_eq!(single.timestamp, 200);
}

#[test]
fn prediction_calls_through_the_handlers() {
    let mut models = ModelManager::new(&Config::default()).unwrap();
    let (name, model_type, config) = model_config_from_request(handler_request("chat", None));
    models.register_model_as("m".to_string(), name, model_type, config, 1).unwrap();
    let mut service = PredictionService::new(BatchProcessor::new(&Config::default()).unwrap());
    service.batch_processor.start().unwrap();

    // The model is still loading.
    let early = predict(
        &mut service,
        &models,
        "m".to_string(),
        PredictRequest { input: InputData::Text("hi".to_string()), parameters: None },
    )
    .unwrap_err();
    assert_eq!(early.status, 503);
    assert_eq!(early.message, "Model error: Model is not ready yet");
    models.complete_load(&"m".to_string(), Ok(handler_instance()), 2);

    let unknown = predict(
        &mut service,
        &models,
        "zz".to_string(),
        PredictRequest { input: InputData::Text("hi".to_string()), parameters: None },
    )
    .unwrap_err();
    assert_eq!(unknown.status, 404);
    let invalid = predict(
        &mut service,
        &models,
        "m".to_string(),
        PredictRequest { input: InputData::Text(String::new()), parameters: None },
    )
    .unwrap_err();
    assert_eq!(
        invalid,
        ErrorBody {
            status: 400,
            error: "VALIDATION_ERROR".to_string(),
            message: "Validation error: Text input cannot be empty".to_string(),
        }
    );

    let mut parameters = PredictionParameters::default();
    parameters.max_tokens = Some(16);
    let id = predict(
        &mut service,
        &models,
        "m".to_string(),
        PredictRequest { input: InputData::Text("hi".to_string()), parameters: Some(parameters.clone()) },
    )
    .unwrap();
    let ids = batch_predict(
        &mut service,
        &models,
        "m".to_string(),
        BatchPredictRequest {
            inputs: vec![InputData::Text("a".to_string()), InputData::Binary(vec![1])],
            parameters: None,
        },
    )
    .unwrap();
    assert_eq!(ids.len(), 2);
    // One unsound input refuses the whole batch call.
    let refused = batch_predict(
        &mut service,
        &models,
        "m".to_string(),
        BatchPredictRequest {
            inputs: vec![InputData::Text("a".to_string()), InputData::Binary(Vec::new())],
            parameters: None,
        },
    )
    .unwrap_err();
    assert_eq!(refused.message, "Validation error: Binary input cannot be empty");
    assert_eq!(
        batch_predict(
            &mut service,
            &models,
            "zz".to_string(),
            BatchPredictRequest { inputs: Vec::new(), parameters: None },
        )
        .unwrap_err()
        .status,
        404
    );

    service.batch_processor.stop().unwrap();
    let stopped = predict(
        &mut service,
        &models,
        "m".to_string(),
        PredictRequest { input: InputData::Text("hi".to_string()), parameters: None },
    )
    .unwrap_err();
    assert_eq!((stopped.status, stopped.error.as_str()), (500, "INTERNAL_ERROR"));
    let now = service.batch_processor.clock_ms();
    let plan = service.batch_processor.tick_at(&models, now);
    assert_eq!(plan.batches.len(), 1);
    let requests = &plan.batches[0].requests;
    let taken: Vec<String> = requests.iter().map(|r| r.request_id.clone()).collect();
    assert_eq!(taken, vec![id, ids[0].clone(), ids[1].clone()]);
    assert_eq!(requests[0].parameters, parameters);
    assert_eq!(requests[1].parameters, PredictionParameters::default());
    assert_eq!(requests[2].input, InputData::Binary(vec![1]));
}

#[test]
fn engine_as_one_value() {
    assert_eq!(NAME, "unimodel");
    assert_eq!(VERSION, "0.1.0");
    let mut broken = Config::default();
    broken.server.port = 0;
    assert_eq!(
        UniModelServer::new(broken).unwrap_err(),
        UniModelError::config("Invalid server port")
    );

    let mut server = UniModelServer::new(Config::default()).unwrap();
    assert_eq!(server.config, Config::default());
    assert_eq!(server.health(), HealthStatus::Unknown);
    assert_eq!(server.start(), Ok(()));
    assert_eq!(
        server.start(),
        Err(UniModelError::internal("BatchProcessor already running"))
    );
    let id = register_model(&mut server.model_service, handler_request("chat", None))
        .unwrap()
        .model_id;
    assert_eq!(server.health(), HealthStatus::Unhealthy);
    server.model_service.model_manager.complete_load(&id, Ok(handler_instance()), 1);
    assert_eq!(server.health(), HealthStatus::Healthy);

    let request = server
        .prediction_service
        .predict(
            &server.model_service.model_manager,
            id.clone(),
            InputData::Text("hi".to_string()),
            PredictionParameters::default(),
        )
        .unwrap();
    assert!(server.tick_at(0).batches.is_empty());
    assert_eq!(server.stop(), Ok(()));
    let plan = server.tick_at(1);
    assert_eq!(plan.batches.len(), 1);
    assert_eq!(plan.batches[0].model_id, id);
    assert_eq!(plan.batches[0].requests[0].request_id, request);
}

#[test]
fn merged_metrics_span_the_answers() {
    let mut first = handler_response("r0", "a", None, None);
    first.metrics.start_time = 300;
    first.metrics.end_time = 400;
    first.metrics.total_latency_ms = 10;
    first.metrics.inference_latency_ms = 9;
    first.metrics.queue_wait_ms = 50;
    first.metrics.preprocessing_ms = 1;
    first.metrics.postprocessing_ms = 8;
    first.metrics.memory_usage_mb = None;
    first.metrics.throughput_bits = Some(1.5f64.to_bits());
    first.metrics.gpu_utilization_bits = None;
    let mut second = handler_response("r1", "b", None, None);
    second.metrics.start_time = 100;
    second.metrics.end_time = 350;
    second.metrics.total_latency_ms = 70;
    second.metrics.inference_latency_ms = 3;
    second.metrics.queue_wait_ms = 20;
    second.metrics.preprocessing_ms = 6;
    second.metrics.postprocessing_ms = 2;
    second.metrics.memory_usage_mb = Some(7);
    let mut third = handler_response("r2", "c", None, None);
    third.metrics.start_time = 200;
    third.metrics.end_time = 900;
    third.metrics.total_latency_ms = 30;
    third.metrics.inference_latency_ms = 4;
    third.metrics.queue_wait_ms = 20;
    third.metrics.preprocessing_ms = 5;
    third.metrics.postprocessing_ms = 9;
    third.metrics.memory_usage_mb = Some(5);

    let merged = merge_batch_metrics(&vec![first, second, third], "call".to_string(), 0);
    // First in, last out, and the longest of each duration.
    assert_eq!(merged.start_time, 100);
    assert_eq!(merged.end_time, 900);
    assert_eq!(merged.total_latency_ms, 70);
    assert_eq!(merged.inference_latency_ms, 9);
    assert_eq!(merged.queue_wait_ms, 50);
    assert_eq!(merged.preprocessing_ms, 6);
    assert_eq!(merged.postprocessing_ms, 9);
    assert_eq!(merged.memory_usage_mb, Some(7));
    // What cannot be compared is the first answer's.
    assert_eq!(merged.throughput_bits.map(f64::from_bits), Some(1.5));
    assert_eq!(merged.gpu_utilization_bits, None);
    assert_eq!(merged.batch_size, 3);
}

#[test]
fn batch_call_refusals_are_shown_exactly() {
    let mut models = ModelManager::new(&Config::default()).unwrap();
    let (name, model_type, config) = model_config_from_request(handler_request("chat", None));
    models.register_model_as("m".to_string(), name, model_type, config, 1).unwrap();
    models.complete_load(&"m".to_string(), Ok(handler_instance()), 2);
    let mut service = PredictionService::new(BatchProcessor::new(&Config::default()).unwrap());
    service.batch_processor.set_high_watermark(Some(0));
    let call = |n: usize| BatchPredictRequest {
        inputs: (0..n).map(|_| InputData::Text("x".to_string())).collect(),
        parameters: None,
    };
    assert_eq!(batch_predict(&mut service, &models, "m".to_string(), call(1)).unwrap().len(), 1);
    assert_eq!(
        batch_predict(&mut service, &models, "m".to_string(), call(1)).unwrap_err(),
        ErrorBody {
            status: 429,
            error: "BATCH_ERROR".to_string(),
            message: "Batch processing error: Ingress queue is above its high-watermark"
                .to_string(),
        }
    );
    service.batch_processor.stop().unwrap();
    assert_eq!(
        batch_predict(&mut service, &models, "m".to_string(), call(1)).unwrap_err(),
        ErrorBody {
            status: 500,
            error: "INTERNAL_ERROR".to_string(),
            message: "Internal error: Batch processor is shut down".to_string(),
        }
    );
    assert_eq!(
        batch_predict(&mut service, &models, "zz".to_string(), call(1)).unwrap_err(),
        ErrorBody {
            status: 404,
            error: "MODEL_ERROR".to_string(),
            message: "Model error: Model not found".to_string(),
        }
    );
}
