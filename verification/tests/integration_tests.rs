//! The life of a model and the way of a prediction, end to end.

use std::collections::HashMap;
use unimodel::application::services::model_service::ModelService;
use unimodel::application::services::prediction_service::PredictionService;
use unimodel::common::error::UniModelError;
use unimodel::common::types::{BatchConfig, InputData, OutputData, PredictionParameters};
use unimodel::domain::model::model_entity::{
    DeviceConfig, DeviceType, MemoryOptimization, ModelConfig, ModelInstance, ModelType,
    OptimizationConfig,
};
use unimodel::domain::service::batch_processor::{
    BatchProcessor, BatchRequest, PredictionResponse, WaitOutcome,
};
use unimodel::domain::service::model_manager::ModelManager;
use unimodel::infrastructure::configuration::Config;

fn integration_model_config(batch_config: BatchConfig) -> ModelConfig {
    ModelConfig {
        model_path: "test_model.onnx".to_string(),
        config_path: None,
        tokenizer_path: None,
        backend: "onnx".to_string(),
        device: DeviceConfig {
            device_type: DeviceType::CPU,
            device_ids: vec![0],
            memory_limit_mb: Some(1024),
            mixed_precision: false,
        },
        optimization: OptimizationConfig {
            kv_cache: false,
            quantization: None,
            graph_optimization: true,
            inference_parallelism: 1,
            memory_optimization: MemoryOptimization::Low,
        },
        batch_config,
        custom_params: HashMap::new(),
    }
}

fn integration_instance() -> ModelInstance {
    ModelInstance {
        id: "instance".to_string(),
        plugin_id: "onnx".to_string(),
        handle: 100,
        supports_batching: true,
        max_batch_size: 32,
    }
}

/// Runs ticks of 10 ms from `from` until every request in `ids` is answered
/// by the built-in backend, which takes 50 ms per batch.
fn integration_serve(
    service: &mut PredictionService,
    models: &mut ModelManager,
    ids: &[String],
    from: u64,
) -> Vec<PredictionResponse> {
    let mut answers: HashMap<String, PredictionResponse> = HashMap::new();
    let mut now = from;
    while answers.len() < ids.len() {
        assert!(now < from + 10_000, "the requests were not served");
        let plan = service.batch_processor.tick_at(models, now);
        assert!(plan.expired.is_empty());
        for batch in plan.batches {
            let model = batch.model_id.clone();
            let deliveries =
                BatchProcessor::execute_batch(batch, now, now + 50, 1_700_000_000_000 + now as i64);
            PredictionService::record_deliveries(models, &model, &deliveries, 50, now as i64)
                .unwrap();
            for delivery in deliveries {
                let response =
                    BatchProcessor::settle(WaitOutcome::Answered(delivery.result)).unwrap();
                answers.insert(delivery.request_id, response);
            }
        }
        now += 10;
    }
    ids.iter().map(|id| answers.remove(id).unwrap()).collect()
}

#[test]
fn test_model_lifecycle() {
    let config = Config::default();
    let model_manager = ModelManager::new(&config).unwrap();
    let mut model_service = ModelService::new(model_manager);

    let model_id = model_service
        .register_model(
            "test-model".to_string(),
            ModelType::CV,
            integration_model_config(BatchConfig::default()),
        )
        .unwrap();

    // The backend reports the model loaded.
    let done = model_service.model_manager.complete_load(&model_id, Ok(integration_instance()), 100);
    assert_eq!(done.result, Ok(()));

    let model_info = model_service.get_model_info(&model_id).unwrap();
    assert_eq!(model_info.name, "test-model");
    assert_eq!(model_info.model_type, ModelType::CV);

    let models = model_service.list_models().unwrap();
    assert_eq!(models.len(), 1);
    assert_eq!(models[0].id, model_id);

    assert_eq!(model_service.unregister_model(&model_id), Ok(Some(integration_instance())));

    let models = model_service.list_models().unwrap();
    assert_eq!(models.len(), 0);
}

#[test]
fn test_prediction_service() {
    let config = Config::default();
    let mut model_manager = ModelManager::new(&config).unwrap();
    let mut batch_processor = BatchProcessor::new(&config).unwrap();
    batch_processor.start().unwrap();
    let mut prediction_service = PredictionService::new(batch_processor);

    let model_id = model_manager
        .register_model(
            "test-model".to_string(),
            ModelType::LLM,
            integration_model_config(BatchConfig::default()),
        )
        .unwrap();
    model_manager.complete_load(&model_id, Ok(integration_instance()), 100);

    // A single prediction.
    let from = prediction_service.batch_processor.clock_ms();
    let request = prediction_service
        .predict(
            &model_manager,
            model_id.clone(),
            InputData::Text("Hello, world!".to_string()),
            PredictionParameters::default(),
        )
        .unwrap();
    let responses =
        integration_serve(&mut prediction_service, &mut model_manager, &[request], from);
    let response = &responses[0];
    assert_eq!(response.model_id, model_id);
    assert!(response.metrics.total_latency_ms > 0);
    assert_eq!(response.output, OutputData::Text("Processed: Hello, world!".to_string()));

    // A batch prediction.
    let inputs =
        vec![InputData::Text("Hello".to_string()), InputData::Text("World".to_string())];
    let from = prediction_service.batch_processor.clock_ms();
    let requests = prediction_service
        .batch_predict(&model_manager, model_id.clone(), inputs, PredictionParameters::default())
        .unwrap();
    let responses =
        integration_serve(&mut prediction_service, &mut model_manager, &requests, from);
    let outcomes: Vec<WaitOutcome> =
        responses.into_iter().map(|r| WaitOutcome::Answered(Ok(r))).collect();
    let responses = PredictionService::finish_batch_predict(outcomes).unwrap();

    assert_eq!(responses.len(), 2);
    assert_eq!(responses[0].model_id, model_id);
    assert_eq!(responses[1].model_id, model_id);
    assert_eq!(responses[0].output, OutputData::Text("Processed: Hello".to_string()));
    assert_eq!(responses[1].output, OutputData::Text("Processed: World".to_string()));

    // Every answer went into the ledger of the model.
    let stats = model_manager.get_model_info(&model_id).unwrap().performance_stats;
    assert_eq!(stats.total_requests, 3);
    assert_eq!(stats.successful_requests, 3);
    assert_eq!(stats.failed_requests, 0);
}

#[test]
fn test_batch_processing() {
    let config = Config::default();
    let mut batch_processor = BatchProcessor::new(&config).unwrap();
    batch_processor.start().unwrap();
    let mut service = PredictionService::new(batch_processor);
    let mut models = ModelManager::new(&config).unwrap();
    models
        .register_model_as(
            "test-model".to_string(),
            "test-model".to_string(),
            ModelType::LLM,
            integration_model_config(BatchConfig::default()),
            0,
        )
        .unwrap();

    let model_id = "test-model".to_string();
    let parameters = PredictionParameters::default();

    // Several requests at once.
    let from = service.batch_processor.clock_ms();
    let mut ids = Vec::new();
    for i in 0..5 {
        let input = InputData::Text(format!("Test input {}", i));
        ids.push(
            service.batch_processor.submit_request(model_id.clone(), input, parameters.clone()).unwrap(),
        );
    }

    let responses = integration_serve(&mut service, &mut models, &ids, from);
    for (i, response) in responses.iter().enumerate() {
        assert_eq!(response.model_id, model_id);
        assert!(response.metrics.total_latency_ms > 0);
        assert_eq!(response.output, OutputData::Text(format!("Processed: Test input {}", i)));
        assert_eq!(response.metrics.batch_size, 5);
    }

    let stats = service.batch_processor.get_batch_stats();
    assert!(stats.is_running);
    assert_eq!(stats.total_processed, 5);

    service.batch_processor.stop().unwrap();
    assert!(!service.batch_processor.get_batch_stats().is_running);
}

#[test]
fn happy_path_of_one_request() {
    let policy = BatchConfig { max_batch_size: 4, max_wait_time_ms: 50, dynamic_padding: true, timeout_ms: 30000 };
    let mut models = ModelManager::new(&Config::default()).unwrap();
    let mut config = integration_model_config(policy);
    config.backend = "echo".to_string();
    models
        .register_model_as("M".to_string(), "M".to_string(), ModelType::LLM, config, 0)
        .unwrap();
    models.complete_load(&"M".to_string(), Ok(integration_instance()), 1);
    let mut processor = BatchProcessor::new(&Config::default()).unwrap();
    processor.start().unwrap();
    processor
        .enqueue(BatchRequest {
            request_id: "r".to_string(),
            model_id: "M".to_string(),
            input: InputData::Text("hi".to_string()),
            parameters: PredictionParameters::default(),
            submitted_at: 1000,
        })
        .unwrap();
    // The group of one waits for its deadline.
    for now in [1000, 1010, 1040, 1049] {
        let plan = processor.tick_at(&models, now);
        assert!(plan.batches.is_empty() && plan.expired.is_empty());
    }
    let mut plan = processor.tick_at(&models, 1050);
    assert_eq!(plan.batches.len(), 1);
    let deliveries = BatchProcessor::execute_batch(plan.batches.remove(0), 1050, 1060, 5);
    let response = deliveries[0].result.as_ref().unwrap();
    assert_eq!(response.output, OutputData::Text("Processed: hi".to_string()));
    assert_eq!(response.metrics.batch_size, 1);
    assert_eq!(response.metrics.queue_wait_ms, 50);
    assert_eq!(response.metrics.inference_latency_ms, 10);
    assert_eq!(response.metrics.total_latency_ms, 60);
}

#[test]
fn four_requests_coalesce_into_one_batch() {
    let policy = BatchConfig { max_batch_size: 4, max_wait_time_ms: 1000, dynamic_padding: true, timeout_ms: 30000 };
    let mut models = ModelManager::new(&Config::default()).unwrap();
    models
        .register_model_as(
            "M".to_string(),
            "M".to_string(),
            ModelType::LLM,
            integration_model_config(policy),
            0,
        )
        .unwrap();
    let mut processor = BatchProcessor::new(&Config::default()).unwrap();
    processor.start().unwrap();
    for k in 0..4u64 {
        processor
            .enqueue(BatchRequest {
                request_id: format!("r{}", k),
                model_id: "M".to_string(),
                input: InputData::Text(format!("{}", k)),
                parameters: PredictionParameters::default(),
                submitted_at: 2 * k,
            })
            .unwrap();
    }
    let mut plan = processor.tick_at(&models, 10);
    assert_eq!(plan.batches.len(), 1);
    let deliveries = BatchProcessor::execute_batch(plan.batches.remove(0), 10, 60, 1_000_060);
    assert_eq!(deliveries.len(), 4);
    for delivery in &deliveries {
        let metrics = &delivery.result.as_ref().unwrap().metrics;
        assert_eq!(metrics.batch_size, 4);
        assert!(metrics.end_time - metrics.start_time < 100);
    }
}

#[test]
fn two_requests_leave_at_the_deadline() {
    let policy = BatchConfig { max_batch_size: 32, max_wait_time_ms: 50, dynamic_padding: true, timeout_ms: 30000 };
    let mut models = ModelManager::new(&Config::default()).unwrap();
    models
        .register_model_as(
            "M".to_string(),
            "M".to_string(),
            ModelType::LLM,
            integration_model_config(policy),
            0,
        )
        .unwrap();
    let mut processor = BatchProcessor::new(&Config::default()).unwrap();
    processor.start().unwrap();
    for k in 0..2 {
        processor
            .enqueue(BatchRequest {
                request_id: format!("r{}", k),
                model_id: "M".to_string(),
                input: InputData::Text("x".to_string()),
                parameters: PredictionParameters::default(),
                submitted_at: 0,
            })
            .unwrap();
    }
    let mut served = None;
    for tick in 0..20u64 {
        let mut plan = processor.tick_at(&models, tick * 10);
        assert!(plan.expired.is_empty());
        if !plan.batches.is_empty() {
            served = Some((tick * 10, plan.batches.remove(0)));
            break;
        }
    }
    let (at, batch) = served.unwrap();
    assert_eq!(at, 50);
    let deliveries = BatchProcessor::execute_batch(batch, at, at + 50, 0);
    assert_eq!(deliveries.len(), 2);
    for delivery in &deliveries {
        let metrics = &delivery.result.as_ref().unwrap().metrics;
        assert_eq!(metrics.batch_size, 2);
        assert!(metrics.total_latency_ms >= 50 && metrics.total_latency_ms <= 150);
    }
}

#[test]
fn a_request_without_an_answer_times_out() {
    let policy = BatchConfig { max_batch_size: 4, max_wait_time_ms: 50, dynamic_padding: true, timeout_ms: 100 };
    let mut models = ModelManager::new(&Config::default()).unwrap();
    models
        .register_model_as(
            "M".to_string(),
            "M".to_string(),
            ModelType::LLM,
            integration_model_config(policy),
            0,
        )
        .unwrap();
    let processor = BatchProcessor::new(&Config::default()).unwrap();
    // The caller waits as long as the policy of the model says, then gives up.
    assert_eq!(processor.request_timeout_ms(&models, &"M".to_string()), 100);
    let outcome = BatchProcessor::settle(WaitOutcome::TimedOut);
    assert_eq!(outcome, Err(UniModelError::internal("Request timeout")));
    assert_eq!(outcome.unwrap_err().status_code(), 500);
}
