//! Prediction over REST: what a call carries, what it answers, and how the
//! answers of a batch call are merged into one.

use crate::api::rest::handlers::model_handler::ErrorBody;
use crate::application::services::prediction_service::{
    availability_fault, first_unsound, input_fault, lemma_first_unsound, PredictionService,
};
use crate::common::types::{
    new_request_id, utc_now_millis, InputData, ModelId, OutputData, PerformanceMetrics,
    PredictionParameters, RequestId, Timestamp,
};
use crate::domain::service::batch_processor::{PredictionResponse, ResponseMetadata};
use crate::domain::service::model_manager::ModelManager;
use std::collections::HashMap;
use vstd::prelude::*;

verus! {

/// The body of a prediction call.
#[derive(Debug, PartialEq)]
pub struct PredictRequest {
    pub input: InputData,
    pub parameters: Option<PredictionParameters>,
}

/// The answer to a prediction call.
#[derive(Debug, Clone, PartialEq)]
pub struct PredictResponse {
    pub request_id: RequestId,
    pub model_id: ModelId,
    pub output: OutputData,
    pub metadata: ResponseMetadata,
    pub metrics: PerformanceMetrics,
    pub timestamp: Timestamp,
}

/// The body of a batch prediction call.
#[derive(Debug, PartialEq)]
pub struct BatchPredictRequest {
    pub inputs: Vec<InputData>,
    pub parameters: Option<PredictionParameters>,
}

/// The answer to a batch prediction call.
#[derive(Debug, Clone, PartialEq)]
pub struct BatchPredictResponse {
    pub request_id: RequestId,
    pub model_id: ModelId,
    pub outputs: Vec<OutputData>,
    pub metadata: ResponseMetadata,
    pub metrics: PerformanceMetrics,
    pub timestamp: Timestamp,
}

/// The sum of the token counts that are given.
pub open spec fn token_sum(counts: Seq<Option<u32>>) -> nat
    decreases counts.len(),
{
    if counts.len() == 0 {
        0
    } else {
        token_sum(counts.drop_last()) + match counts.last() {
            Some(n) => n as nat,
            None => 0,
        }
    }
}

/// A token count as a merged answer reports it: nothing for no tokens, and
/// never more than `u32::MAX`.
pub open spec fn reported_tokens(sum: nat) -> Option<u32> {
    if sum == 0 {
        None
    } else if sum > u32::MAX {
        Some(u32::MAX)
    } else {
        Some(sum as u32)
    }
}

/// The counts of generated tokens of a sequence of answers.
pub open spec fn generated_counts(responses: Seq<PredictionResponse>) -> Seq<Option<u32>> {
    Seq::new(responses.len(), |i: int| responses[i].metrics.tokens_generated)
}

/// The counts of input tokens of a sequence of answers.
pub open spec fn input_counts(responses: Seq<PredictionResponse>) -> Seq<Option<u32>> {
    Seq::new(responses.len(), |i: int| responses[i].metrics.tokens_input)
}

/// The timings of a batch call: when its first answer began, when its last
/// answer ended, and the longest of each duration.
#[derive(Debug, Clone, Copy, PartialEq, Eq, Structural)]
pub struct BatchTimings {
    pub start_time: Timestamp,
    pub end_time: Timestamp,
    pub total_latency_ms: u64,
    pub inference_latency_ms: u64,
    pub queue_wait_ms: u64,
    pub preprocessing_ms: u64,
    pub postprocessing_ms: u64,
    /// The largest memory reading that was given.
    pub memory_usage_mb: Option<u64>,
}

/// The timings of one answer.
pub open spec fn timings_of(metrics: PerformanceMetrics) -> BatchTimings {
    BatchTimings {
        start_time: metrics.start_time,
        end_time: metrics.end_time,
        total_latency_ms: metrics.total_latency_ms,
        inference_latency_ms: metrics.inference_latency_ms,
        queue_wait_ms: metrics.queue_wait_ms,
        preprocessing_ms: metrics.preprocessing_ms,
        postprocessing_ms: metrics.postprocessing_ms,
        memory_usage_mb: metrics.memory_usage_mb,
    }
}

/// The larger of two durations.
pub open spec fn longer(a: u64, b: u64) -> u64 {
    if a >= b {
        a
    } else {
        b
    }
}

/// The timings that span both `a` and `b`: the earlier start, the later
/// end, the longer of each duration, the larger memory reading.
pub open spec fn widened(a: BatchTimings, b: BatchTimings) -> BatchTimings {
    BatchTimings {
        start_time: if a.start_time <= b.start_time {
            a.start_time
        } else {
            b.start_time
        },
        end_time: if a.end_time >= b.end_time {
            a.end_time
        } else {
            b.end_time
        },
        total_latency_ms: longer(a.total_latency_ms, b.total_latency_ms),
        inference_latency_ms: longer(a.inference_latency_ms, b.inference_latency_ms),
        queue_wait_ms: longer(a.queue_wait_ms, b.queue_wait_ms),
        preprocessing_ms: longer(a.preprocessing_ms, b.preprocessing_ms),
        postprocessing_ms: longer(a.postprocessing_ms, b.postprocessing_ms),
        memory_usage_mb: match (a.memory_usage_mb, b.memory_usage_mb) {
            (Some(x), Some(y)) => Some(longer(x, y)),
            (Some(x), None) => Some(x),
            (None, other) => other,
        },
    }
}

/// The timings that span every answer of a batch call with at least one
/// answer.
pub open spec fn batch_timings(responses: Seq<PredictionResponse>) -> BatchTimings
    decreases responses.len(),
{
    if responses.len() <= 1 {
        timings_of(responses[0].metrics)
    } else {
        widened(batch_timings(responses.drop_last()), timings_of(responses.last().metrics))
    }
}

/// The timings of a batch call span its answers: no answer began before the
/// call's start time or ended after its end time, and no duration of an
/// answer is longer than the call's.
pub proof fn lemma_batch_timings_span(responses: Seq<PredictionResponse>, i: int)
    requires
        0 <= i < responses.len(),
    ensures
        ({
            let all = batch_timings(responses);
            let one = responses[i].metrics;
            &&& all.start_time <= one.start_time
            &&& all.end_time >= one.end_time
            &&& all.total_latency_ms >= one.total_latency_ms
            &&& all.inference_latency_ms >= one.inference_latency_ms
            &&& all.queue_wait_ms >= one.queue_wait_ms
            &&& all.preprocessing_ms >= one.preprocessing_ms
            &&& all.postprocessing_ms >= one.postprocessing_ms
        }),
    decreases responses.len(),
{
    if responses.len() > 1 {
        if i < responses.len() - 1 {
            lemma_batch_timings_span(responses.drop_last(), i);
        }
    }
}

/// The metrics of a batch call, merged from the metrics of its answers.
///
/// The call began when its first answer began and ended when its last
/// answer ended; each of its durations is the longest among the answers,
/// and its memory reading the largest. The token counts are summed. The
/// throughput and the accelerator reading, which the engine cannot
/// compare, are those of the first answer. The batch size is the number of
/// answers. A call without answers reports nothing but the time `now`.
pub open spec fn merged_metrics(
    responses: Seq<PredictionResponse>,
    request_id: RequestId,
    now: Timestamp,
) -> PerformanceMetrics {
    if responses.len() == 0 {
        PerformanceMetrics {
            request_id,
            start_time: now,
            end_time: now,
            total_latency_ms: 0,
            inference_latency_ms: 0,
            queue_wait_ms: 0,
            preprocessing_ms: 0,
            postprocessing_ms: 0,
            tokens_generated: None,
            tokens_input: None,
            throughput_bits: None,
            batch_size: 0,
            gpu_utilization_bits: None,
            memory_usage_mb: None,
        }
    } else {
        let spanned = batch_timings(responses);
        PerformanceMetrics {
            request_id,
            start_time: spanned.start_time,
            end_time: spanned.end_time,
            total_latency_ms: spanned.total_latency_ms,
            inference_latency_ms: spanned.inference_latency_ms,
            queue_wait_ms: spanned.queue_wait_ms,
            preprocessing_ms: spanned.preprocessing_ms,
            postprocessing_ms: spanned.postprocessing_ms,
            tokens_generated: reported_tokens(token_sum(generated_counts(responses))),
            tokens_input: reported_tokens(token_sum(input_counts(responses))),
            throughput_bits: responses[0].metrics.throughput_bits,
            batch_size: if responses.len() > u32::MAX {
                u32::MAX
            } else {
                responses.len() as u32
            },
            gpu_utilization_bits: responses[0].metrics.gpu_utilization_bits,
            memory_usage_mb: spanned.memory_usage_mb,
        }
    }
}

/// Whether `response` is the one answer that a batch call gives for the
/// answers `responses` of its requests.
pub open spec fn is_batch_response(
    response: BatchPredictResponse,
    model_id: ModelId,
    responses: Seq<PredictionResponse>,
    request_id: RequestId,
    now: Timestamp,
) -> bool {
    &&& response.request_id == request_id
    &&& response.model_id == model_id
    &&& response.outputs@.len() == responses.len()
    &&& forall|i: int|
        0 <= i < responses.len() ==> (#[trigger] response.outputs@[i]) == responses[i].output
    &&& if responses.len() == 0 {
        &&& response.metadata.model_version@ == "unknown"@
        &&& response.metadata.backend@ == "unknown"@
        &&& response.metadata.custom_metadata@ == Map::<String, serde_json::Value>::empty()
    } else {
        response.metadata == responses[0].metadata
    }
    &&& response.metrics == merged_metrics(responses, request_id, now)
    &&& response.timestamp == now
}

/// The timings of one answer.
fn timings(metrics: &PerformanceMetrics) -> (t: BatchTimings)
    ensures
        t == timings_of(*metrics),
{
    BatchTimings {
        start_time: metrics.start_time,
        end_time: metrics.end_time,
        total_latency_ms: metrics.total_latency_ms,
        inference_latency_ms: metrics.inference_latency_ms,
        queue_wait_ms: metrics.queue_wait_ms,
        preprocessing_ms: metrics.preprocessing_ms,
        postprocessing_ms: metrics.postprocessing_ms,
        memory_usage_mb: metrics.memory_usage_mb,
    }
}

/// The larger of two durations.
fn longer_of(a: u64, b: u64) -> (r: u64)
    ensures
        r == longer(a, b),
{
    if a >= b {
        a
    } else {
        b
    }
}

/// The timings that span both `a` and `b`.
fn widen(a: BatchTimings, b: BatchTimings) -> (t: BatchTimings)
    ensures
        t == widened(a, b),
{
    BatchTimings {
        start_time: if a.start_time <= b.start_time {
            a.start_time
        } else {
            b.start_time
        },
        end_time: if a.end_time >= b.end_time {
            a.end_time
        } else {
            b.end_time
        },
        total_latency_ms: longer_of(a.total_latency_ms, b.total_latency_ms),
        inference_latency_ms: longer_of(a.inference_latency_ms, b.inference_latency_ms),
        queue_wait_ms: longer_of(a.queue_wait_ms, b.queue_wait_ms),
        preprocessing_ms: longer_of(a.preprocessing_ms, b.preprocessing_ms),
        postprocessing_ms: longer_of(a.postprocessing_ms, b.postprocessing_ms),
        memory_usage_mb: match (a.memory_usage_mb, b.memory_usage_mb) {
            (Some(x), Some(y)) => Some(longer_of(x, y)),
            (Some(x), None) => Some(x),
            (None, other) => other,
        },
    }
}

/// Adds a token count to a sum that is held at `u32::MAX`.
fn add_tokens(sum: u32, count: Option<u32>) -> (r: u32)
    ensures
        r == match count {
            Some(n) => if sum + n > u32::MAX {
                u32::MAX
            } else {
                (sum + n) as u32
            },
            None => sum,
        },
{
    match count {
        Some(n) => {
            if n > u32::MAX - sum {
                u32::MAX
            } else {
                sum + n
            }
        },
        None => sum,
    }
}

/// Merges the metrics of the answers of a batch call into the metrics of
/// the call, under the id `request_id` and at time `now`.
pub fn merge_batch_metrics(
    responses: &Vec<PredictionResponse>,
    request_id: RequestId,
    now: Timestamp,
) -> (metrics: PerformanceMetrics)
    ensures
        metrics == merged_metrics(responses@, request_id, now),
{
    if responses.len() == 0 {
        return PerformanceMetrics {
            request_id,
            start_time: now,
            end_time: now,
            total_latency_ms: 0,
            inference_latency_ms: 0,
            queue_wait_ms: 0,
            preprocessing_ms: 0,
            postprocessing_ms: 0,
            tokens_generated: None,
            tokens_input: None,
            throughput_bits: None,
            batch_size: 0,
            gpu_utilization_bits: None,
            memory_usage_mb: None,
        };
    }
    let mut generated: u32 = 0;
    let mut input: u32 = 0;
    let mut spanned = timings(&responses[0].metrics);
    let mut i: usize = 0;
    proof {
        assert(generated_counts(responses@).take(0) =~= Seq::<Option<u32>>::empty());
        assert(input_counts(responses@).take(0) =~= Seq::<Option<u32>>::empty());
    }
    while i < responses.len()
        invariant
            0 <= i <= responses@.len(),
            responses@.len() > 0,
            spanned == if i == 0 {
                timings_of(responses@[0].metrics)
            } else {
                batch_timings(responses@.take(i as int))
            },
            generated as nat == if token_sum(generated_counts(responses@).take(i as int))
                > u32::MAX {
                u32::MAX as nat
            } else {
                token_sum(generated_counts(responses@).take(i as int))
            },
            input as nat == if token_sum(input_counts(responses@).take(i as int)) > u32::MAX {
                u32::MAX as nat
            } else {
                token_sum(input_counts(responses@).take(i as int))
            },
        decreases responses@.len() - i,
    {
        proof {
            let g = generated_counts(responses@);
            let n = input_counts(responses@);
            assert(g.take(i as int + 1).drop_last() =~= g.take(i as int));
            assert(n.take(i as int + 1).drop_last() =~= n.take(i as int));
            assert(g.take(i as int + 1).last() == responses@[i as int].metrics.tokens_generated);
            assert(n.take(i as int + 1).last() == responses@[i as int].metrics.tokens_input);
        }
        proof {
            let seen = responses@.take(i as int + 1);
            assert(seen.drop_last() =~= responses@.take(i as int));
            assert(seen.last() == responses@[i as int]);
            assert(seen[0] == responses@[0]);
        }
        generated = add_tokens(generated, responses[i].metrics.tokens_generated);
        input = add_tokens(input, responses[i].metrics.tokens_input);
        if i > 0 {
            spanned = widen(spanned, timings(&responses[i].metrics));
        }
        i = i + 1;
    }
    proof {
        let g = generated_counts(responses@);
        let n = input_counts(responses@);
        assert(g.take(responses@.len() as int) =~= g);
        assert(n.take(responses@.len() as int) =~= n);
        assert(responses@.take(responses@.len() as int) =~= responses@);
    }
    let first = &responses[0].metrics;
    PerformanceMetrics {
        request_id,
        start_time: spanned.start_time,
        end_time: spanned.end_time,
        total_latency_ms: spanned.total_latency_ms,
        inference_latency_ms: spanned.inference_latency_ms,
        queue_wait_ms: spanned.queue_wait_ms,
        preprocessing_ms: spanned.preprocessing_ms,
        postprocessing_ms: spanned.postprocessing_ms,
        tokens_generated: if generated > 0 {
            Some(generated)
        } else {
            None
        },
        tokens_input: if input > 0 {
            Some(input)
        } else {
            None
        },
        throughput_bits: first.throughput_bits,
        batch_size: if responses.len() > u32::MAX as usize {
            u32::MAX
        } else {
            responses.len() as u32
        },
        gpu_utilization_bits: first.gpu_utilization_bits,
        memory_usage_mb: spanned.memory_usage_mb,
    }
}

/// The answer to a prediction call, from the answer of its request.
pub fn predict_response(response: PredictionResponse) -> (answer: PredictResponse)
    ensures
        answer.request_id == response.request_id,
        answer.model_id == response.model_id,
        answer.output == response.output,
        answer.metadata == response.metadata,
        answer.metrics == response.metrics,
        answer.timestamp == response.timestamp,
{
    PredictResponse {
        request_id: response.request_id,
        model_id: response.model_id,
        output: response.output,
        metadata: response.metadata,
        metrics: response.metrics,
        timestamp: response.timestamp,
    }
}

/// The one answer of a batch call, under the id `request_id` and at time
/// `now`: the outputs of its requests in order, the first answer's
/// metadata, and the merged metrics.
pub fn batch_response_at(
    model_id: ModelId,
    responses: Vec<PredictionResponse>,
    request_id: RequestId,
    now: Timestamp,
) -> (response: BatchPredictResponse)
    ensures
        is_batch_response(response, model_id, responses@, request_id, now),
{
    let metrics = merge_batch_metrics(&responses, request_id.clone(), now);
    let ghost all = responses@;
    let mut rest = responses;
    let mut reversed: Vec<OutputData> = Vec::new();
    let mut first_metadata: Option<ResponseMetadata> = None;
    while rest.len() > 0
        invariant
            rest@.len() + reversed@.len() == all.len(),
            forall|i: int| 0 <= i < rest@.len() ==> rest@[i] == all[i],
            forall|i: int|
                0 <= i < reversed@.len() ==> reversed@[i] == all[all.len() - 1 - i].output,
            rest@.len() < all.len() ==> first_metadata == Some(all[rest@.len() as int].metadata),
            all.len() == 0 ==> first_metadata is None,
        decreases rest@.len(),
    {
        let last = rest.pop();
        match last {
            Some(response) => {
                reversed.push(response.output);
                first_metadata = Some(response.metadata);
            },
            None => {
                assert(false);
            },
        }
    }
    let mut outputs: Vec<OutputData> = Vec::new();
    while reversed.len() > 0
        invariant
            outputs@.len() + reversed@.len() == all.len(),
            forall|i: int|
                0 <= i < reversed@.len() ==> reversed@[i] == all[all.len() - 1 - i].output,
            forall|i: int| 0 <= i < outputs@.len() ==> outputs@[i] == all[i].output,
        decreases reversed@.len(),
    {
        let next = reversed.pop();
        match next {
            Some(output) => {
                outputs.push(output);
            },
            None => {
                assert(false);
            },
        }
    }
    let metadata = match first_metadata {
        Some(metadata) => metadata,
        None => ResponseMetadata {
            model_version: "unknown".to_owned(),
            backend: "unknown".to_owned(),
            custom_metadata: HashMap::new(),
        },
    };
    BatchPredictResponse { request_id, model_id, outputs, metadata, metrics, timestamp: now }
}

/// The one answer of a batch call, under a fresh id and at the time of the
/// system clock.
pub fn batch_response(model_id: ModelId, responses: Vec<PredictionResponse>) -> (response:
    BatchPredictResponse)
    ensures
        response.request_id@.len() == 36,
        response.timestamp >= 0,
        is_batch_response(response, model_id, responses@, response.request_id, response.timestamp),
{
    let request_id = new_request_id();
    let now = utc_now_millis();
    batch_response_at(model_id, responses, request_id, now)
}

/// Takes a prediction call for `model_id`: a call without parameters runs
/// with the default parameters. The id of the request comes back, or the
/// failure as it is shown. A refusal changes nothing.
pub fn predict(
    service: &mut PredictionService,
    models: &ModelManager,
    model_id: ModelId,
    request: PredictRequest,
) -> (r: Result<RequestId, ErrorBody>)
    ensures
        final(service).batch_processor.same_settings(old(service).batch_processor),
        final(service).batch_processor.pending() == old(service).batch_processor.pending(),
        r is Ok <==> availability_fault(models@, model_id@) is None && input_fault(request.input)
            is None && !old(service).batch_processor.is_stopped()
            && !old(service).batch_processor.is_overloaded(),
        r matches Ok(id) ==> {
            let ingress = final(service).batch_processor.ingress();
            &&& id@.len() == 36
            &&& ingress.len() == old(service).batch_processor.ingress().len() + 1
            &&& ingress.drop_last() == old(service).batch_processor.ingress()
            &&& ingress.last().request_id@ == id@
            &&& ingress.last().model_id == model_id
            &&& ingress.last().input == request.input
            &&& match request.parameters {
                Some(parameters) => ingress.last().parameters == parameters,
                None => ingress.last().parameters.unset(),
            }
        },
        r matches Err(body) ==> final(service).batch_processor.ingress()
            == old(service).batch_processor.ingress(),
        r matches Err(body) ==> match availability_fault(models@, model_id@) {
            Some(fault) => body.shows_model_fault(fault),
            None => match input_fault(request.input) {
                Some(message) => body.shows_validation(message),
                None => body.shows_refusal(old(service).batch_processor.is_stopped()),
            },
        },
{
    let PredictRequest { input, parameters } = request;
    let parameters = match parameters {
        Some(parameters) => parameters,
        None => PredictionParameters::default(),
    };
    match service.predict(models, model_id, input, parameters) {
        Ok(id) => Ok(id),
        Err(e) => Err(ErrorBody::from_error(&e)),
    }
}

/// Takes a batch prediction call for `model_id`: one request per input, in
/// order; a call without parameters runs with the default parameters. The
/// ids of the requests come back, or the failure as it is shown.
///
/// The call succeeds exactly when the model is available, every input is
/// sound and intake takes as many requests as there are inputs. A model
/// that cannot serve and an input that is not sound refuse the call and
/// change nothing. Where intake refuses one of the requests, those before
/// it stay submitted.
pub fn batch_predict(
    service: &mut PredictionService,
    models: &ModelManager,
    model_id: ModelId,
    request: BatchPredictRequest,
) -> (r: Result<Vec<RequestId>, ErrorBody>)
    ensures
        final(service).batch_processor.same_settings(old(service).batch_processor),
        final(service).batch_processor.pending() == old(service).batch_processor.pending(),
        r is Ok <==> availability_fault(models@, model_id@) is None && first_unsound(
            request.inputs@,
        ) is None && old(service).batch_processor.takes(request.inputs@.len()),
        ({
            let before = old(service).batch_processor.ingress();
            let after = final(service).batch_processor.ingress();
            &&& before.len() <= after.len() <= before.len() + request.inputs@.len()
            &&& after.take(before.len() as int) == before
            &&& forall|i: int|
                0 <= i < after.len() - before.len() ==> {
                    let taken = #[trigger] after[before.len() + i];
                    &&& taken.model_id@ == model_id@
                    &&& taken.input == request.inputs@[i]
                    &&& match request.parameters {
                        Some(parameters) => taken.parameters.same_as(parameters),
                        None => taken.parameters.unset(),
                    }
                }
            &&& match r {
                Ok(ids) => {
                    &&& ids@.len() == request.inputs@.len()
                    &&& after.len() == before.len() + request.inputs@.len()
                    &&& forall|i: int|
                        0 <= i < ids@.len() ==> (#[trigger] ids@[i])@ == after[before.len()
                            + i].request_id@
                },
                Err(body) => match availability_fault(models@, model_id@) {
                    Some(fault) => after == before && body.shows_model_fault(fault),
                    None => match first_unsound(request.inputs@) {
                        Some(k) => {
                            &&& after == before
                            &&& input_fault(request.inputs@[k]) matches Some(message)
                                && body.shows_validation(message)
                        },
                        None => {
                            &&& old(service).batch_processor.room() matches Some(taken)
                            &&& taken < request.inputs@.len()
                            &&& after.len() == before.len() + taken
                            &&& body.shows_refusal(old(service).batch_processor.is_stopped())
                            &&& !old(service).batch_processor.is_stopped()
                                ==> final(service).batch_processor.is_overloaded()
                        },
                    },
                },
            }
        }),
{
    let BatchPredictRequest { inputs, parameters } = request;
    let parameters = match parameters {
        Some(parameters) => parameters,
        None => PredictionParameters::default(),
    };
    match service.batch_predict(models, model_id, inputs, parameters) {
        Ok(ids) => Ok(ids),
        Err(e) => {
            proof {
                lemma_first_unsound(request.inputs@);
            }
            Err(ErrorBody::from_error(&e))
        },
    }
}

} // verus!
