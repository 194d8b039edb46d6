//! Tests of the micro-batching dispatcher.

use std::collections::HashMap;
use unimodel::application::services::prediction_service::PredictionService;
use unimodel::common::error::{BatchFault, UniModelError};
use unimodel::common::types::{
    BatchConfig, InputData, NamedInput, NamedOutput, OutputData, PredictionParameters,
};
use unimodel::domain::model::model_entity::{
    DeviceConfig, DeviceType, MemoryOptimization, ModelConfig, ModelInstance, ModelType,
    OptimizationConfig,
};
use unimodel::domain::service::batch_processor::{
    mirror, BatchGroup, BatchProcessor, BatchRequest, Delivery, ExecutionReport, WaitOutcome,
};
use unimodel::domain::service::model_manager::ModelManager;
use unimodel::infrastructure::configuration::Config;

fn dispatch_policy(max_batch_size: u32, max_wait_time_ms: u64) -> BatchConfig {
    BatchConfig { max_batch_size, max_wait_time_ms, dynamic_padding: true, timeout_ms: 30000 }
}

fn dispatch_model_config(policy: BatchConfig) -> ModelConfig {
    ModelConfig {
        model_path: "model.bin".to_string(),
        config_path: None,
        tokenizer_path: None,
        backend: "echo".to_string(),
        device: DeviceConfig {
            device_type: DeviceType::CPU,
            device_ids: vec![0],
            memory_limit_mb: None,
            mixed_precision: false,
        },
        optimization: OptimizationConfig {
            kv_cache: false,
            quantization: None,
            graph_optimization: false,
            inference_parallelism: 1,
            memory_optimization: MemoryOptimization::Low,
        },
        batch_config: policy,
        custom_params: HashMap::new(),
    }
}

/// A registry with one ready model per `(id, policy)`.
fn dispatch_registry(models: &[(&str, BatchConfig)]) -> ModelManager {
    let mut manager = ModelManager::new(&Config::default()).unwrap();
    for (k, (id, policy)) in models.iter().enumerate() {
        manager
            .register_model_as(
                id.to_string(),
                id.to_string(),
                ModelType::LLM,
                dispatch_model_config(*policy),
                0,
            )
            .unwrap();
        let instance = ModelInstance {
            id: format!("i{}", k),
            plugin_id: "echo".to_string(),
            handle: k as u64,
            supports_batching: true,
            max_batch_size: policy.max_batch_size,
        };
        assert_eq!(manager.complete_load(&id.to_string(), Ok(instance), 0).result, Ok(()));
    }
    manager
}

fn dispatch_processor() -> BatchProcessor {
    let mut processor = BatchProcessor::new(&Config::default()).unwrap();
    processor.start().unwrap();
    processor
}

fn dispatch_request(id: &str, model: &str, text: &str, submitted_at: u64) -> BatchRequest {
    BatchRequest {
        request_id: id.to_string(),
        model_id: model.to_string(),
        input: InputData::Text(text.to_string()),
        parameters: PredictionParameters::default(),
        submitted_at,
    }
}

fn dispatch_ids(requests: &[BatchRequest]) -> Vec<String> {
    requests.iter().map(|r| r.request_id.clone()).collect()
}

fn dispatch_batch_ids(batches: &[BatchGroup]) -> Vec<Vec<String>> {
    batches.iter().map(|b| dispatch_ids(&b.requests)).collect()
}

fn dispatch_report(started_at: u64, finished_at: u64) -> ExecutionReport {
    ExecutionReport {
        started_at,
        finished_at,
        completed_at: 1_700_000_000_000,
        preprocessing_ms: 1,
        postprocessing_ms: 2,
        model_version: "2.1".to_string(),
        backend: "echo".to_string(),
        gpu_utilization_bits: None,
        memory_usage_mb: Some(64),
    }
}

fn dispatch_strings(items: &[&str]) -> Vec<String> {
    items.iter().map(|s| s.to_string()).collect()
}

#[test]
fn new_processor_is_idle_and_empty() {
    let processor = BatchProcessor::new(&Config::default()).unwrap();
    let stats = processor.get_batch_stats();
    assert_eq!(stats.pending_requests, 0);
    assert!(!stats.is_running);
    assert_eq!(stats.total_processed, 0);
    assert_eq!(stats.avg_batch_size_milli, 0);
    assert!(!processor.ingress_backlog_warning());

    let mut broken = Config::default();
    broken.engine.batch_config.max_batch_size = 0;
    assert_eq!(
        BatchProcessor::new(&broken).unwrap_err(),
        UniModelError::config("Max batch size must be greater than 0")
    );
}

#[test]
fn second_start_is_refused() {
    let mut processor = BatchProcessor::new(&Config::default()).unwrap();
    assert_eq!(processor.start(), Ok(()));
    assert!(processor.get_batch_stats().is_running);
    assert_eq!(
        processor.start(),
        Err(UniModelError::internal("BatchProcessor already running"))
    );
    assert!(processor.get_batch_stats().is_running);
    assert_eq!(processor.stop(), Ok(()));
    assert!(!processor.get_batch_stats().is_running);
    // A stopped processor can be started again and then takes requests.
    assert_eq!(processor.start(), Ok(()));
    assert_eq!(processor.enqueue(dispatch_request("r", "m", "x", 0)), Ok(()));
}

#[test]
fn intake_after_stop_is_refused() {
    let mut processor = dispatch_processor();
    assert_eq!(processor.enqueue(dispatch_request("r1", "m", "x", 0)), Ok(()));
    processor.stop().unwrap();
    assert_eq!(
        processor.enqueue(dispatch_request("r2", "m", "x", 0)),
        Err(UniModelError::internal("Batch processor is shut down"))
    );
    assert_eq!(
        processor.submit_request(
            "m".to_string(),
            InputData::Text("x".to_string()),
            PredictionParameters::default()
        ),
        Err(UniModelError::internal("Batch processor is shut down"))
    );
    // What was taken before the stop is still served.
    let plan = processor.tick_at(&dispatch_registry(&[]), 1);
    assert_eq!(dispatch_batch_ids(&plan.batches), vec![dispatch_strings(&["r1"])]);
}

#[test]
fn intake_above_the_high_watermark_is_refused() {
    let mut processor = dispatch_processor();
    processor.set_high_watermark(Some(1));
    assert_eq!(processor.enqueue(dispatch_request("r1", "m", "x", 0)), Ok(()));
    // At the watermark the queue still takes a request.
    assert_eq!(processor.enqueue(dispatch_request("r2", "m", "x", 0)), Ok(()));
    let refused = processor.enqueue(dispatch_request("r3", "m", "x", 0));
    assert_eq!(
        refused,
        Err(UniModelError::BatchProcessing(
            BatchFault::Overloaded,
            "Ingress queue is above its high-watermark".to_string()
        ))
    );
    assert_eq!(refused.unwrap_err().status_code(), 429);
    // Collecting drains the queue and intake goes on.
    processor.collect_new_requests();
    assert_eq!(processor.get_batch_stats().pending_requests, 2);
    assert_eq!(processor.enqueue(dispatch_request("r4", "m", "x", 0)), Ok(()));
    processor.set_high_watermark(None);
    for k in 0..10 {
        assert_eq!(processor.enqueue(dispatch_request(&format!("q{}", k), "m", "x", 0)), Ok(()));
    }
}

#[test]
fn backlog_warning_above_ten_times_batch_size_times_capacity() {
    let mut config = Config::default();
    config.engine.max_models = 1;
    config.engine.batch_config.max_batch_size = 2;
    let mut processor = BatchProcessor::new(&config).unwrap();
    for k in 0..20 {
        processor.enqueue(dispatch_request(&format!("r{}", k), "m", "x", 0)).unwrap();
    }
    assert!(!processor.ingress_backlog_warning());
    processor.enqueue(dispatch_request("r20", "m", "x", 0)).unwrap();
    assert!(processor.ingress_backlog_warning());
}

#[test]
fn submitted_requests_get_fresh_ids_and_a_stamp() {
    let mut processor = dispatch_processor();
    let first = processor
        .submit_request(
            "m".to_string(),
            InputData::Text("one".to_string()),
            PredictionParameters::default(),
        )
        .unwrap();
    let second = processor
        .submit_request(
            "m".to_string(),
            InputData::Text("two".to_string()),
            PredictionParameters::default(),
        )
        .unwrap();
    assert_eq!(first.len(), 36);
    assert_ne!(first, second);
    let stamp = processor.clock_ms();
    // Draining hands both out in the order of arrival.
    processor.stop().unwrap();
    let plan = processor.tick_at(&dispatch_registry(&[]), stamp);
    assert!(plan.expired.is_empty());
    assert_eq!(dispatch_batch_ids(&plan.batches), vec![vec![first.clone(), second.clone()]]);
    let requests = &plan.batches[0].requests;
    assert_eq!(requests[0].input, InputData::Text("one".to_string()));
    assert_eq!(requests[1].input, InputData::Text("two".to_string()));
    assert!(requests[0].submitted_at <= requests[1].submitted_at);
    assert!(requests[1].submitted_at <= stamp);
    // The clock of a new processor starts near zero and does not run backwards.
    assert!(stamp < 60_000);
    assert!(processor.clock_ms() >= stamp);
}

#[test]
fn collecting_appends_in_arrival_order() {
    let mut processor = dispatch_processor();
    let registry = dispatch_registry(&[("m", dispatch_policy(10, 1000))]);
    processor.enqueue(dispatch_request("r1", "m", "x", 0)).unwrap();
    processor.enqueue(dispatch_request("r2", "m", "x", 0)).unwrap();
    assert_eq!(processor.get_batch_stats().pending_requests, 0);
    processor.collect_new_requests();
    assert_eq!(processor.get_batch_stats().pending_requests, 2);
    processor.enqueue(dispatch_request("r3", "m", "x", 0)).unwrap();
    processor.collect_new_requests();
    processor.collect_new_requests();
    assert_eq!(processor.get_batch_stats().pending_requests, 3);
    processor.stop().unwrap();
    let plan = processor.process_batches_at(&registry, 1);
    assert_eq!(dispatch_batch_ids(&plan.batches), vec![dispatch_strings(&["r1", "r2", "r3"])]);
}

#[test]
fn a_request_past_its_deadline_expires() {
    let registry = dispatch_registry(&[("m", dispatch_policy(4, 50))]);
    let mut processor = dispatch_processor();
    processor.enqueue(dispatch_request("old", "m", "x", 100)).unwrap();
    processor.enqueue(dispatch_request("young", "m", "x", 120)).unwrap();
    // At 151 the first request has waited 51 ms: one more than it may.
    let plan = processor.tick_at(&registry, 151);
    assert_eq!(dispatch_ids(&plan.expired), dispatch_strings(&["old"]));
    assert!(plan.batches.is_empty());
    assert_eq!(processor.get_batch_stats().pending_requests, 1);

    let deliveries = BatchProcessor::expire_requests(plan.expired);
    assert_eq!(
        deliveries,
        vec![Delivery {
            request_id: "old".to_string(),
            result: Err(UniModelError::BatchProcessing(
                BatchFault::Expired,
                "Request expired".to_string()
            )),
        }]
    );
    assert_eq!(deliveries[0].result.as_ref().unwrap_err().status_code(), 503);
    assert_eq!(deliveries[0].result.as_ref().unwrap_err().error_code(), "BATCH_ERROR");
}

#[test]
fn expiry_goes_by_each_models_own_deadline() {
    let registry =
        dispatch_registry(&[("fast", dispatch_policy(100, 10)), ("slow", dispatch_policy(100, 1000))]);
    let mut processor = dispatch_processor();
    processor.enqueue(dispatch_request("f1", "fast", "x", 0)).unwrap();
    processor.enqueue(dispatch_request("s1", "slow", "x", 0)).unwrap();
    // A model that is not registered goes by the default policy: 50 ms.
    processor.enqueue(dispatch_request("u1", "unknown", "x", 0)).unwrap();
    let plan = processor.tick_at(&registry, 11);
    assert_eq!(dispatch_ids(&plan.expired), dispatch_strings(&["f1"]));
    let plan = processor.tick_at(&registry, 51);
    assert_eq!(dispatch_ids(&plan.expired), dispatch_strings(&["u1"]));
    let plan = processor.tick_at(&registry, 1001);
    assert_eq!(dispatch_ids(&plan.expired), dispatch_strings(&["s1"]));
    assert_eq!(processor.get_batch_stats().pending_requests, 0);
}

#[test]
fn a_full_group_leaves_at_once() {
    let registry = dispatch_registry(&[("m", dispatch_policy(4, 1000))]);
    let mut processor = dispatch_processor();
    for k in 0..3 {
        processor.enqueue(dispatch_request(&format!("r{}", k), "m", "x", 5)).unwrap();
    }
    // Three of four: the group waits.
    let plan = processor.tick_at(&registry, 6);
    assert!(plan.batches.is_empty());
    assert!(plan.expired.is_empty());
    assert_eq!(processor.get_batch_stats().pending_requests, 3);
    // The fourth fills the group, long before the deadline.
    processor.enqueue(dispatch_request("r3", "m", "x", 7)).unwrap();
    let plan = processor.tick_at(&registry, 7);
    assert_eq!(
        dispatch_batch_ids(&plan.batches),
        vec![dispatch_strings(&["r0", "r1", "r2", "r3"])]
    );
    assert_eq!(plan.batches[0].model_id, "m");
    assert_eq!(plan.batches[0].created_at, 7);
    assert_eq!(processor.get_batch_stats().pending_requests, 0);
    let stats = processor.get_batch_stats();
    assert_eq!(stats.total_processed, 4);
    assert_eq!(stats.avg_batch_size_milli, 4000);
}

#[test]
fn one_request_over_the_batch_size_splits_off() {
    let registry = dispatch_registry(&[("m", dispatch_policy(4, 1000))]);
    let mut processor = dispatch_processor();
    for k in 0..5 {
        processor.enqueue(dispatch_request(&format!("r{}", k), "m", "x", 0)).unwrap();
    }
    let plan = processor.tick_at(&registry, 1);
    assert_eq!(
        dispatch_batch_ids(&plan.batches),
        vec![dispatch_strings(&["r0", "r1", "r2", "r3"]), dispatch_strings(&["r4"])]
    );
    assert_eq!(processor.get_batch_stats().pending_requests, 0);
    let stats = processor.get_batch_stats();
    assert_eq!(stats.total_processed, 5);
    assert_eq!(stats.avg_batch_size_milli, 2500);
}

#[test]
fn process_model_group_cuts_consecutive_chunks() {
    let requests = |n: usize| -> Vec<BatchRequest> {
        (0..n).map(|k| dispatch_request(&format!("r{}", k), "m", "x", 0)).collect()
    };
    let sizes = |batches: &[BatchGroup]| -> Vec<usize> {
        batches.iter().map(|b| b.requests.len()).collect()
    };
    assert!(BatchProcessor::process_model_group(requests(0), 4, 9).is_empty());
    assert_eq!(sizes(&BatchProcessor::process_model_group(requests(1), 4, 9)), vec![1]);
    assert_eq!(sizes(&BatchProcessor::process_model_group(requests(4), 4, 9)), vec![4]);
    assert_eq!(sizes(&BatchProcessor::process_model_group(requests(5), 4, 9)), vec![4, 1]);
    assert_eq!(sizes(&BatchProcessor::process_model_group(requests(8), 4, 9)), vec![4, 4]);
    assert_eq!(sizes(&BatchProcessor::process_model_group(requests(10), 4, 9)), vec![4, 4, 2]);
    assert_eq!(sizes(&BatchProcessor::process_model_group(requests(3), 1, 9)), vec![1, 1, 1]);
    // A batch size of zero counts as one.
    assert_eq!(sizes(&BatchProcessor::process_model_group(requests(2), 0, 9)), vec![1, 1]);
    let batches = BatchProcessor::process_model_group(requests(10), 4, 9);
    let flat: Vec<String> = batches.iter().flat_map(|b| dispatch_ids(&b.requests)).collect();
    assert_eq!(flat, dispatch_ids(&requests(10)));
    for batch in &batches {
        assert_eq!(batch.model_id, "m");
        assert_eq!(batch.created_at, 9);
    }
}

#[test]
fn a_group_leaves_when_its_oldest_request_reaches_the_deadline() {
    let registry = dispatch_registry(&[("m", dispatch_policy(32, 50))]);
    let mut processor = dispatch_processor();
    processor.enqueue(dispatch_request("r1", "m", "x", 100)).unwrap();
    processor.enqueue(dispatch_request("r2", "m", "x", 130)).unwrap();
    let plan = processor.tick_at(&registry, 149);
    assert!(plan.batches.is_empty());
    assert!(plan.expired.is_empty());
    // At 150 the first request has waited its 50 ms: the group leaves whole.
    let plan = processor.tick_at(&registry, 150);
    assert!(plan.expired.is_empty());
    assert_eq!(dispatch_batch_ids(&plan.batches), vec![dispatch_strings(&["r1", "r2"])]);
    assert_eq!(processor.get_batch_stats().pending_requests, 0);
}

#[test]
fn groups_are_judged_model_by_model() {
    let registry = dispatch_registry(&[
        ("a", dispatch_policy(2, 1000)),
        ("b", dispatch_policy(3, 1000)),
        ("c", dispatch_policy(2, 1000)),
    ]);
    let mut processor = dispatch_processor();
    for (id, model) in [
        ("b1", "b"), ("a1", "a"), ("c1", "c"), ("b2", "b"), ("a2", "a"), ("a3", "a"),
    ] {
        processor.enqueue(dispatch_request(id, model, "x", 0)).unwrap();
    }
    let plan = processor.tick_at(&registry, 1);
    // Only the group of `a` is full: it leaves in arrival order, cut by two.
    assert_eq!(
        dispatch_batch_ids(&plan.batches),
        vec![dispatch_strings(&["a1", "a2"]), dispatch_strings(&["a3"])]
    );
    for batch in &plan.batches {
        assert_eq!(batch.model_id, "a");
    }
    // The others stay pending in arrival order.
    processor.stop().unwrap();
    let plan = processor.tick_at(&registry, 2);
    assert_eq!(
        dispatch_batch_ids(&plan.batches),
        vec![dispatch_strings(&["b1", "b2"]), dispatch_strings(&["c1"])]
    );
}

#[test]
fn every_request_leaves_exactly_once() {
    let registry = dispatch_registry(&[
        ("a", dispatch_policy(3, 100)),
        ("b", dispatch_policy(2, 40)),
        ("c", dispatch_policy(50, 10_000)),
    ]);
    let mut processor = dispatch_processor();
    let mut all: Vec<String> = Vec::new();
    let mut seen: Vec<String> = Vec::new();
    let mut per_model: HashMap<String, Vec<String>> = HashMap::new();
    let models = ["a", "b", "c", "a", "c", "b", "b"];
    for tick in 0..40u64 {
        // A few arrivals per tick, spread over the models.
        for k in 0..(tick % 4) {
            let model = models[((tick + k) % 7) as usize];
            let id = format!("t{}-{}", tick, k);
            processor.enqueue(dispatch_request(&id, model, "x", tick * 10)).unwrap();
            all.push(id);
        }
        let plan = processor.tick_at(&registry, tick * 10 + (tick % 3) * 25);
        seen.extend(dispatch_ids(&plan.expired));
        for batch in &plan.batches {
            assert!(!batch.requests.is_empty());
            let limit = match batch.model_id.as_str() {
                "a" => 3,
                "b" => 2,
                _ => 50,
            };
            assert!(batch.requests.len() <= limit);
            for request in &batch.requests {
                assert_eq!(request.model_id, batch.model_id);
                per_model.entry(batch.model_id.clone()).or_default().push(request.request_id.clone());
            }
            seen.extend(dispatch_ids(&batch.requests));
        }
    }
    processor.stop().unwrap();
    let plan = processor.tick_at(&registry, 400);
    seen.extend(dispatch_ids(&plan.expired));
    for batch in &plan.batches {
        seen.extend(dispatch_ids(&batch.requests));
        for request in &batch.requests {
            per_model.entry(batch.model_id.clone()).or_default().push(request.request_id.clone());
        }
    }
    assert_eq!(processor.get_batch_stats().pending_requests, 0);
    // Nothing lost, nothing doubled.
    let mut sorted_all = all.clone();
    sorted_all.sort();
    let mut sorted_seen = seen.clone();
    sorted_seen.sort();
    assert_eq!(sorted_seen, sorted_all);
    // Within a model the batched requests left in arrival order.
    for ids in per_model.values() {
        let order: Vec<usize> =
            ids.iter().map(|id| all.iter().position(|other| other == id).unwrap()).collect();
        let mut sorted = order.clone();
        sorted.sort();
        assert_eq!(order, sorted);
    }
}

#[test]
fn a_stopped_processor_drains_every_group() {
    let registry =
        dispatch_registry(&[("a", dispatch_policy(10, 1000)), ("b", dispatch_policy(10, 1000))]);
    let mut processor = dispatch_processor();
    processor.enqueue(dispatch_request("a1", "a", "x", 0)).unwrap();
    processor.enqueue(dispatch_request("b1", "b", "x", 0)).unwrap();
    assert!(processor.tick_at(&registry, 1).batches.is_empty());
    processor.enqueue(dispatch_request("a2", "a", "x", 1)).unwrap();
    processor.stop().unwrap();
    let plan = processor.tick_at(&registry, 2);
    assert_eq!(
        dispatch_batch_ids(&plan.batches),
        vec![dispatch_strings(&["a1", "a2"]), dispatch_strings(&["b1"])]
    );
    assert_eq!(processor.get_batch_stats().pending_requests, 0);
    // A request that is past its deadline expires in the drain too.
    let mut processor = dispatch_processor();
    processor.enqueue(dispatch_request("late", "a", "x", 0)).unwrap();
    processor.stop().unwrap();
    let plan = processor.tick_at(&registry, 5000);
    assert_eq!(dispatch_ids(&plan.expired), dispatch_strings(&["late"]));
    assert!(plan.batches.is_empty());
}

#[test]
fn ticks_by_the_dispatchers_clock() {
    let registry = dispatch_registry(&[("m", dispatch_policy(2, 60_000))]);
    let mut processor = dispatch_processor();
    let first = processor
        .submit_request(
            "m".to_string(),
            InputData::Text("a".to_string()),
            PredictionParameters::default(),
        )
        .unwrap();
    assert!(processor.tick(&registry).batches.is_empty());
    let second = processor
        .submit_request(
            "m".to_string(),
            InputData::Text("b".to_string()),
            PredictionParameters::default(),
        )
        .unwrap();
    processor.collect_new_requests();
    let plan = processor.process_batches(&registry);
    assert!(plan.expired.is_empty());
    assert_eq!(dispatch_batch_ids(&plan.batches), vec![vec![first, second]]);
    assert!(plan.batches[0].created_at < 60_000);
}

#[test]
fn echo_answers_each_kind_of_input() {
    assert_eq!(
        BatchProcessor::echo(&InputData::Text("hi".to_string())),
        OutputData::Text("Processed: hi".to_string())
    );
    assert_eq!(
        BatchProcessor::echo(&InputData::Text(String::new())),
        OutputData::Text("Processed: ".to_string())
    );
    assert_eq!(
        BatchProcessor::echo(&InputData::Binary(vec![1, 2, 3])),
        OutputData::Binary(vec![1, 2, 3])
    );
    let json = serde_json::Value::from(vec![1, 2]);
    assert_eq!(BatchProcessor::echo(&InputData::Json(json.clone())), OutputData::Json(json.clone()));
    let nested = InputData::Multimodal(vec![
        NamedInput { name: "t".to_string(), value: InputData::Text("keep".to_string()) },
        NamedInput {
            name: "inner".to_string(),
            value: InputData::Multimodal(vec![NamedInput {
                name: "j".to_string(),
                value: InputData::Json(json.clone()),
            }]),
        },
    ]);
    let expected = OutputData::Multimodal(vec![
        NamedOutput { name: "t".to_string(), value: OutputData::Text("keep".to_string()) },
        NamedOutput {
            name: "inner".to_string(),
            value: OutputData::Multimodal(vec![NamedOutput {
                name: "j".to_string(),
                value: OutputData::Json(json),
            }]),
        },
    ]);
    assert_eq!(BatchProcessor::echo(&nested), expected);
    assert_eq!(mirror(&nested), expected);
    assert_eq!(mirror(&InputData::Text("hi".to_string())), OutputData::Text("hi".to_string()));
    assert_eq!(expected.clone(), expected);
    assert_eq!(nested.clone(), nested);
}

#[test]
fn simulated_inference_answers_in_place() {
    let inputs = vec![
        InputData::Text("a".to_string()),
        InputData::Binary(vec![9]),
        InputData::Text("b".to_string()),
    ];
    let borrowed: Vec<&InputData> = inputs.iter().collect();
    assert_eq!(
        BatchProcessor::simulate_batch_inference(&borrowed),
        Ok(vec![
            OutputData::Text("Processed: a".to_string()),
            OutputData::Binary(vec![9]),
            OutputData::Text("Processed: b".to_string()),
        ])
    );
    assert_eq!(BatchProcessor::simulate_batch_inference(&Vec::new()), Ok(Vec::new()));
}

#[test]
fn outputs_go_to_their_requests_by_position() {
    let batch = BatchGroup {
        model_id: "m".to_string(),
        requests: vec![
            dispatch_request("r0", "m", "zero", 10),
            dispatch_request("r1", "m", "one", 30),
            dispatch_request("r2", "m", "two", 60),
        ],
        created_at: 70,
    };
    assert_eq!(
        batch.inputs(),
        vec![
            &InputData::Text("zero".to_string()),
            &InputData::Text("one".to_string()),
            &InputData::Text("two".to_string()),
        ]
    );
    assert_eq!(batch.parameters().len(), 3);
    let outputs = vec![
        OutputData::Text("out 0".to_string()),
        OutputData::Binary(vec![1]),
        OutputData::Text("out 2".to_string()),
    ];
    let report = dispatch_report(50, 90);
    let deliveries = BatchProcessor::complete_batch(batch, Ok(outputs.clone()), &report);
    assert_eq!(deliveries.len(), 3);
    for (i, delivery) in deliveries.iter().enumerate() {
        assert_eq!(delivery.request_id, format!("r{}", i));
        let response = delivery.result.as_ref().unwrap();
        assert_eq!(response.request_id, format!("r{}", i));
        assert_eq!(response.model_id, "m");
        assert_eq!(response.output, outputs[i]);
        assert_eq!(response.metadata.model_version, "2.1");
        assert_eq!(response.metadata.backend, "echo");
        assert!(response.metadata.custom_metadata.is_empty());
        assert_eq!(response.timestamp, 1_700_000_000_000);
        let metrics = &response.metrics;
        assert_eq!(metrics.request_id, format!("r{}", i));
        assert_eq!(metrics.batch_size, 3);
        assert_eq!(metrics.inference_latency_ms, 40);
        assert_eq!(metrics.preprocessing_ms, 1);
        assert_eq!(metrics.postprocessing_ms, 2);
        assert_eq!(metrics.tokens_generated, None);
        assert_eq!(metrics.tokens_input, None);
        assert_eq!(metrics.throughput_bits, None);
        assert_eq!(metrics.gpu_utilization_bits, None);
        assert_eq!(metrics.memory_usage_mb, Some(64));
        assert_eq!(metrics.end_time, 1_700_000_000_000);
        assert_eq!(metrics.start_time, 1_700_000_000_000 - metrics.total_latency_ms as i64);
        // The total covers the wait and the inference.
        assert!(metrics.total_latency_ms >= metrics.queue_wait_ms + metrics.inference_latency_ms);
    }
    let waits: Vec<u64> =
        deliveries.iter().map(|d| d.result.as_ref().unwrap().metrics.queue_wait_ms).collect();
    // The third request was stamped after the batch started: it did not wait.
    assert_eq!(waits, vec![40, 20, 0]);
    let totals: Vec<u64> =
        deliveries.iter().map(|d| d.result.as_ref().unwrap().metrics.total_latency_ms).collect();
    assert_eq!(totals, vec![80, 60, 40]);
}

#[test]
fn a_wrong_number_of_outputs_fails_the_batch() {
    let wrong = Err(UniModelError::Plugin("Backend returned a wrong number of outputs".to_string()));
    // Too few outputs: no request is answered, not even the first.
    let batch = BatchGroup {
        model_id: "m".to_string(),
        requests: vec![dispatch_request("r0", "m", "a", 0), dispatch_request("r1", "m", "b", 0)],
        created_at: 0,
    };
    let deliveries = BatchProcessor::complete_batch(
        batch,
        Ok(vec![OutputData::Text("only".to_string())]),
        &dispatch_report(0, 0),
    );
    assert_eq!(deliveries.len(), 2);
    assert_eq!(deliveries[0].request_id, "r0");
    assert_eq!(deliveries[1].request_id, "r1");
    assert_eq!(deliveries[0].result, wrong);
    assert_eq!(deliveries[1].result, wrong);

    // Too many outputs fail the batch as well.
    let batch = BatchGroup {
        model_id: "m".to_string(),
        requests: vec![dispatch_request("r0", "m", "a", 0)],
        created_at: 0,
    };
    let deliveries = BatchProcessor::complete_batch(
        batch,
        Ok(vec![OutputData::Text("one".to_string()), OutputData::Text("two".to_string())]),
        &dispatch_report(0, 0),
    );
    assert_eq!(deliveries.len(), 1);
    assert_eq!(deliveries[0].result, wrong);
    assert_eq!(deliveries[0].result.as_ref().unwrap_err().status_code(), 500);

    // An empty batch with no outputs has nothing to deliver.
    let batch = BatchGroup { model_id: "m".to_string(), requests: Vec::new(), created_at: 0 };
    assert!(BatchProcessor::complete_batch(batch, Ok(Vec::new()), &dispatch_report(0, 0)).is_empty());
}

#[test]
fn a_clock_that_ran_backwards_counts_as_no_time() {
    let batch = BatchGroup {
        model_id: "m".to_string(),
        requests: vec![dispatch_request("r0", "m", "a", 0), dispatch_request("r1", "m", "b", 9)],
        created_at: 0,
    };
    let deliveries = BatchProcessor::complete_batch(
        batch,
        Ok(vec![OutputData::Text("one".to_string()), OutputData::Text("two".to_string())]),
        &dispatch_report(5, 3),
    );
    let metrics = &deliveries[0].result.as_ref().unwrap().metrics;
    assert_eq!(metrics.inference_latency_ms, 0);
    assert_eq!(metrics.queue_wait_ms, 5);
    assert_eq!(metrics.total_latency_ms, 5);
    let metrics = &deliveries[1].result.as_ref().unwrap().metrics;
    assert_eq!(metrics.queue_wait_ms, 0);
    assert_eq!(metrics.total_latency_ms, 0);
}

#[test]
fn a_failed_batch_fails_each_of_its_requests() {
    let batch = BatchGroup {
        model_id: "m".to_string(),
        requests: vec![dispatch_request("r0", "m", "a", 0), dispatch_request("r1", "m", "b", 0)],
        created_at: 0,
    };
    let deliveries = BatchProcessor::complete_batch(
        batch,
        Err(UniModelError::plugin("device lost")),
        &dispatch_report(0, 10),
    );
    assert_eq!(
        deliveries,
        vec![
            Delivery {
                request_id: "r0".to_string(),
                result: Err(UniModelError::Plugin("device lost".to_string())),
            },
            Delivery {
                request_id: "r1".to_string(),
                result: Err(UniModelError::Plugin("device lost".to_string())),
            },
        ]
    );
    // A failure of another kind is reported as a backend failure with its text.
    let batch = BatchGroup {
        model_id: "m".to_string(),
        requests: vec![dispatch_request("r0", "m", "a", 0)],
        created_at: 0,
    };
    let deliveries = BatchProcessor::complete_batch(
        batch,
        Err(UniModelError::Network("reset".to_string())),
        &dispatch_report(0, 10),
    );
    assert_eq!(
        deliveries[0].result,
        Err(UniModelError::Plugin("Network error: reset".to_string()))
    );
    assert_eq!(deliveries[0].result.as_ref().unwrap_err().status_code(), 500);
}

#[test]
fn execute_batch_runs_the_built_in_backend() {
    let batch = BatchGroup {
        model_id: "m".to_string(),
        requests: vec![
            dispatch_request("r0", "m", "hi", 100),
            BatchRequest {
                request_id: "r1".to_string(),
                model_id: "m".to_string(),
                input: InputData::Binary(vec![7]),
                parameters: PredictionParameters::default(),
                submitted_at: 120,
            },
        ],
        created_at: 150,
    };
    let deliveries = BatchProcessor::execute_batch(batch, 150, 200, 1_700_000_000_000);
    assert_eq!(deliveries.len(), 2);
    let first = deliveries[0].result.as_ref().unwrap();
    assert_eq!(first.output, OutputData::Text("Processed: hi".to_string()));
    assert_eq!(first.metadata.model_version, "1.0.0");
    assert_eq!(first.metadata.backend, "simulated");
    assert_eq!(first.metrics.batch_size, 2);
    assert_eq!(first.metrics.queue_wait_ms, 50);
    assert_eq!(first.metrics.inference_latency_ms, 50);
    assert_eq!(first.metrics.total_latency_ms, 100);
    assert_eq!(first.metrics.preprocessing_ms, 5);
    assert_eq!(first.metrics.postprocessing_ms, 5);
    assert_eq!(first.metrics.gpu_utilization_bits.map(f32::from_bits), Some(0.75));
    assert_eq!(first.metrics.memory_usage_mb, Some(1024));
    let second = deliveries[1].result.as_ref().unwrap();
    assert_eq!(second.output, OutputData::Binary(vec![7]));
    assert_eq!(second.metrics.queue_wait_ms, 30);
    let report = ExecutionReport::simulated(1, 2, 3);
    assert_eq!(report.backend, "simulated");
    assert_eq!((report.started_at, report.finished_at, report.completed_at), (1, 2, 3));
}

#[test]
fn waits_settle_into_results() {
    let batch = BatchGroup {
        model_id: "m".to_string(),
        requests: vec![dispatch_request("r0", "m", "hi", 0)],
        created_at: 0,
    };
    let mut deliveries = BatchProcessor::execute_batch(batch, 0, 1, 2);
    let response = deliveries.remove(0).result.unwrap();
    assert_eq!(
        BatchProcessor::settle(WaitOutcome::Answered(Ok(response.clone()))),
        Ok(response.clone())
    );
    assert_eq!(
        BatchProcessor::settle(WaitOutcome::Answered(Err(UniModelError::plugin("x")))),
        Err(UniModelError::plugin("x"))
    );
    assert_eq!(
        BatchProcessor::settle(WaitOutcome::Closed),
        Err(UniModelError::internal("Response channel closed"))
    );
    assert_eq!(
        BatchProcessor::settle(WaitOutcome::TimedOut),
        Err(UniModelError::internal("Request timeout"))
    );

    assert_eq!(
        PredictionService::finish_batch_predict(vec![
            WaitOutcome::Answered(Ok(response.clone())),
            WaitOutcome::Answered(Ok(response.clone())),
        ]),
        Ok(vec![response.clone(), response.clone()])
    );
    assert_eq!(PredictionService::finish_batch_predict(Vec::new()), Ok(Vec::new()));
    // The first failure in order is the result.
    assert_eq!(
        PredictionService::finish_batch_predict(vec![
            WaitOutcome::Answered(Ok(response.clone())),
            WaitOutcome::TimedOut,
            WaitOutcome::Answered(Err(UniModelError::plugin("later"))),
        ]),
        Err(UniModelError::internal("Request timeout"))
    );
    assert_eq!(
        PredictionService::finish_batch_predict(vec![
            WaitOutcome::Answered(Err(UniModelError::plugin("first"))),
            WaitOutcome::Closed,
        ]),
        Err(UniModelError::plugin("first"))
    );
}

#[test]
fn request_timeout_comes_from_the_models_policy() {
    let own = BatchConfig { max_batch_size: 4, max_wait_time_ms: 50, dynamic_padding: true, timeout_ms: 100 };
    let registry = dispatch_registry(&[("m", own)]);
    let processor = dispatch_processor();
    assert_eq!(processor.request_timeout_ms(&registry, &"m".to_string()), 100);
    assert_eq!(processor.request_timeout_ms(&registry, &"other".to_string()), 30000);
}

#[test]
fn failures_stay_within_their_batch() {
    let registry =
        dispatch_registry(&[("a", dispatch_policy(4, 1000)), ("b", dispatch_policy(4, 1000))]);
    let mut registry = registry;
    let mut processor = dispatch_processor();
    for k in 0..4 {
        processor.enqueue(dispatch_request(&format!("a{}", k), "a", "x", 0)).unwrap();
        processor.enqueue(dispatch_request(&format!("b{}", k), "b", "y", 0)).unwrap();
    }
    let plan = processor.tick_at(&registry, 1);
    assert_eq!(plan.batches.len(), 2);
    let mut failed = 0;
    let mut answered = 0;
    for batch in plan.batches {
        let model = batch.model_id.clone();
        let outcome = if model == "a" {
            Err(UniModelError::plugin("backend of a is down"))
        } else {
            let inputs = batch.inputs();
            BatchProcessor::simulate_batch_inference(&inputs)
        };
        let deliveries = BatchProcessor::complete_batch(batch, outcome, &dispatch_report(1, 11));
        assert_eq!(deliveries.len(), 4);
        for delivery in &deliveries {
            if model == "a" {
                assert_eq!(
                    delivery.result,
                    Err(UniModelError::Plugin("backend of a is down".to_string()))
                );
                failed += 1;
            } else {
                assert_eq!(
                    delivery.result.as_ref().unwrap().output,
                    OutputData::Text("Processed: y".to_string())
                );
                answered += 1;
            }
        }
        assert_eq!(
            PredictionService::record_deliveries(&mut registry, &model, &deliveries, 10, 99),
            Ok(())
        );
    }
    assert_eq!((failed, answered), (4, 4));
    // The ledgers count what the waiters received.
    let a = registry.get_model_info(&"a".to_string()).unwrap().performance_stats;
    assert_eq!((a.total_requests, a.successful_requests, a.failed_requests), (4, 0, 4));
    let b = registry.get_model_info(&"b".to_string()).unwrap().performance_stats;
    assert_eq!((b.total_requests, b.successful_requests, b.failed_requests), (4, 4, 0));
    assert_eq!(b.last_updated, 99);
    // An unknown model has no ledger.
    assert_eq!(
        PredictionService::record_deliveries(&mut registry, &"zz".to_string(), &Vec::new(), 0, 0),
        Err(UniModelError::model("Model not found"))
    );
}

#[test]
fn a_delivered_batch_goes_into_the_ledger() {
    let mut registry =
        dispatch_registry(&[("a", dispatch_policy(4, 1000)), ("b", dispatch_policy(4, 1000))]);
    let batch = |model: &str| BatchGroup {
        model_id: model.to_string(),
        requests: vec![
            dispatch_request("r0", model, "x", 0),
            dispatch_request("r1", model, "y", 10),
            dispatch_request("r2", model, "z", 30),
        ],
        created_at: 40,
    };
    let outputs = vec![
        OutputData::Text("0".to_string()),
        OutputData::Text("1".to_string()),
        OutputData::Text("2".to_string()),
    ];
    let deliveries =
        PredictionService::deliver_batch(&mut registry, batch("a"), Ok(outputs), &dispatch_report(40, 60));
    assert_eq!(deliveries.len(), 3);
    assert!(deliveries.iter().all(|d| d.result.is_ok()));
    let a = registry.get_model_info(&"a".to_string()).unwrap().performance_stats;
    assert_eq!((a.total_requests, a.successful_requests, a.failed_requests), (3, 3, 0));
    assert_eq!(a.last_updated, 1_700_000_000_000);
    // Total latencies of 60, 50 and 30 ms, one after the other.
    assert_eq!(a.avg_latency_us, ((6_000 * 9 + 50_000) / 10 * 9 + 30_000) / 10);

    // A failed batch counts every request as a failure, with the time the backend took.
    let deliveries = PredictionService::deliver_batch(
        &mut registry,
        batch("a"),
        Err(UniModelError::plugin("down")),
        &dispatch_report(100, 120),
    );
    assert!(deliveries.iter().all(|d| d.result == Err(UniModelError::plugin("down"))));
    let after = registry.get_model_info(&"a".to_string()).unwrap().performance_stats;
    assert_eq!((after.total_requests, after.successful_requests, after.failed_requests), (6, 3, 3));
    // A wrong number of outputs fails the batch, and the ledger says so.
    let deliveries = PredictionService::deliver_batch(
        &mut registry,
        batch("a"),
        Ok(vec![OutputData::Text("one".to_string())]),
        &dispatch_report(100, 120),
    );
    assert!(deliveries.iter().all(|d| d.result.is_err()));
    let after = registry.get_model_info(&"a".to_string()).unwrap().performance_stats;
    assert_eq!((after.total_requests, after.successful_requests, after.failed_requests), (9, 3, 6));

    // The other model's ledger is untouched.
    let b = registry.get_model_info(&"b".to_string()).unwrap().performance_stats;
    assert_eq!((b.total_requests, b.successful_requests, b.failed_requests), (0, 0, 0));
    assert_eq!(b.last_updated, 0);

    // A model that is gone has no ledger; its waiters are served all the same.
    let deliveries = PredictionService::deliver_batch(
        &mut registry,
        batch("gone"),
        Err(UniModelError::plugin("down")),
        &dispatch_report(0, 1),
    );
    assert_eq!(deliveries.len(), 3);
    assert_eq!(registry.len(), 2);
}

#[test]
fn batch_intake_stops_at_the_high_watermark() {
    let registry = dispatch_registry(&[("m", dispatch_policy(100, 60_000))]);
    let inputs = |n: usize| -> Vec<InputData> {
        (0..n).map(|k| InputData::Text(format!("in {}", k))).collect()
    };
    let mut service = PredictionService::new(dispatch_processor());
    service.batch_processor.set_high_watermark(Some(2));
    // With room for three, three are taken.
    let ids = service
        .batch_predict(&registry, "m".to_string(), inputs(3), PredictionParameters::default())
        .unwrap();
    assert_eq!(ids.len(), 3);
    // The queue stands above its mark now: nothing more is taken.
    let refused = service.batch_predict(
        &registry,
        "m".to_string(),
        inputs(1),
        PredictionParameters::default(),
    );
    assert_eq!(
        refused,
        Err(UniModelError::overloaded("Ingress queue is above its high-watermark"))
    );
    // A call without inputs asks for no room.
    assert_eq!(
        service.batch_predict(&registry, "m".to_string(), inputs(0), PredictionParameters::default()),
        Ok(Vec::new())
    );
    service.batch_processor.collect_new_requests();
    assert_eq!(service.batch_processor.get_batch_stats().pending_requests, 3);

    // With room for three, a call of five is refused at the fourth request;
    // the three before it stay submitted.
    let refused = service.batch_predict(
        &registry,
        "m".to_string(),
        inputs(5),
        PredictionParameters::default(),
    );
    assert_eq!(
        refused,
        Err(UniModelError::overloaded("Ingress queue is above its high-watermark"))
    );
    service.batch_processor.collect_new_requests();
    assert_eq!(service.batch_processor.get_batch_stats().pending_requests, 6);

    // A stopped dispatcher takes nothing, but a call without inputs still succeeds.
    service.batch_processor.stop().unwrap();
    assert_eq!(
        service.batch_predict(&registry, "m".to_string(), inputs(2), PredictionParameters::default()),
        Err(UniModelError::internal("Batch processor is shut down"))
    );
    assert_eq!(
        service.batch_predict(&registry, "m".to_string(), inputs(0), PredictionParameters::default()),
        Ok(Vec::new())
    );
    service.batch_processor.collect_new_requests();
    assert_eq!(service.batch_processor.get_batch_stats().pending_requests, 6);
}
