//! Prediction intake: checks that the model can serve and that the input is
//! sound, hands the request to the dispatcher, and later keeps the ledger
//! of what the dispatcher delivered.

use crate::common::error::{BatchFault, ModelFault, UniModelError};
use crate::common::types::{
    input_wf, json_is_null, value_is_null, HealthStatus, InputData, ModelId, NamedInput, OutputData,
    PredictionParameters, RequestId, Timestamp,
};
use crate::domain::model::model_entity::{Model, ModelInfo, ModelStatus, PerformanceStats};
use crate::domain::service::batch_processor::{
    inference_time, is_delivery, BatchGroup, BatchProcessor, Delivery, ExecutionReport,
    PredictionResponse, WaitOutcome,
};
use crate::domain::service::model_manager::{
    lemma_lookup_found, lookup, others_kept, ModelManager,
};
use vstd::prelude::*;
use vstd::string::StringExecFns;
use vstd::utf8::encode_utf8;

verus! {

/// Most bytes a text input may hold.
pub const MAX_TEXT_BYTES: usize = 1_000_000;

/// Most bytes a binary input may hold.
pub const MAX_BINARY_BYTES: usize = 100_000_000;

/// Whether the name of the part at place `at` occurs at an earlier place.
pub open spec fn name_repeats(parts: Seq<NamedInput>, at: int) -> bool {
    exists|j: int| 0 <= j < at && (#[trigger] parts[j]).name@ == parts[at].name@
}

/// The message of the first rule that an input breaks; `None` for a sound
/// input.
///
/// A text is not empty and holds at most [`MAX_TEXT_BYTES`] bytes. Binary
/// data is not empty and holds at most [`MAX_BINARY_BYTES`] bytes. A JSON
/// document is not `null`. A multimodal input has a part; its parts are
/// checked in order, each for a name that is not empty and occurs for the
/// first time, then as an input of its own.
pub open spec fn input_fault(input: InputData) -> Option<Seq<char>>
    decreases input, 0nat,
{
    match input {
        InputData::Text(text) => if text@.len() == 0 {
            Some("Text input cannot be empty"@)
        } else if encode_utf8(text@).len() > MAX_TEXT_BYTES {
            Some("Text input too large"@)
        } else {
            None
        },
        InputData::Binary(bytes) => if bytes@.len() == 0 {
            Some("Binary input cannot be empty"@)
        } else if bytes@.len() > MAX_BINARY_BYTES {
            Some("Binary input too large"@)
        } else {
            None
        },
        InputData::Json(value) => if json_is_null(value) {
            Some("JSON input cannot be null"@)
        } else {
            None
        },
        InputData::Multimodal(parts) => if parts@.len() == 0 {
            Some("Multimodal input cannot be empty"@)
        } else {
            parts_fault(parts, 0)
        },
    }
}

/// The message of the first rule that the parts from place `from` on break.
pub open spec fn parts_fault(parts: Vec<NamedInput>, from: nat) -> Option<Seq<char>>
    decreases parts, (parts@.len() - from) as nat,
{
    if from >= parts@.len() {
        None
    } else if parts@[from as int].name@.len() == 0 {
        Some("Multimodal key cannot be empty"@)
    } else if name_repeats(parts@, from as int) {
        Some("Multimodal key cannot repeat"@)
    } else {
        match input_fault(parts@[from as int].value) {
            Some(message) => Some(message),
            None => parts_fault(parts, from + 1),
        }
    }
}

/// An input that breaks no rule meets the invariant of inputs: among the
/// parts of a multimodal input a name occurs once, at every depth.
pub proof fn lemma_sound_input_is_well_formed(input: InputData)
    requires
        input_fault(input) is None,
    ensures
        input_wf(input),
    decreases input, 0nat,
{
    if input is Multimodal {
        let parts = input->Multimodal_0;
        assert(decreases_to!(input => parts));
        lemma_sound_parts_are_well_formed(parts, 0);
        assert forall|i: int, j: int| 0 <= i < j < parts@.len() implies (#[trigger] parts@[i]).name@
            != (#[trigger] parts@[j]).name@ by {
            assert(!name_repeats(parts@, j));
        }
    }
}

/// Parts that break no rule from place `from` on have names that do not
/// occur at an earlier place, and values that meet the invariant of inputs.
pub proof fn lemma_sound_parts_are_well_formed(parts: Vec<NamedInput>, from: nat)
    requires
        parts_fault(parts, from) is None,
    ensures
        forall|k: int|
            from <= k < parts@.len() ==> !name_repeats(parts@, k) && input_wf(
                (#[trigger] parts@[k]).value,
            ),
    decreases parts, (parts@.len() - from) as nat,
{
    if from < parts@.len() {
        assert(decreases_to!(parts => parts@[from as int]));
        assert(decreases_to!(parts@[from as int] => parts@[from as int].value));
        lemma_sound_input_is_well_formed(parts@[from as int].value);
        lemma_sound_parts_are_well_formed(parts, from + 1);
    }
}

/// Why the model that goes by `id` cannot serve a prediction, as the cause
/// and the message of the error; `None` for a model that is available.
///
/// A model is available when it is registered, loaded and healthy.
pub open spec fn availability_fault(models: Seq<Model>, id: Seq<char>) -> Option<
    (ModelFault, Seq<char>),
> {
    match lookup(models, id) {
        None => Some((ModelFault::NotFound, "Model not found"@)),
        Some(m) => match m.info.status {
            ModelStatus::Ready | ModelStatus::Running => if m.info.health_status
                == HealthStatus::Healthy {
                None
            } else {
                Some((ModelFault::Unhealthy, "Model is unhealthy"@))
            },
            ModelStatus::Initializing | ModelStatus::Loading => Some(
                (ModelFault::Unavailable, "Model is not ready yet"@),
            ),
            ModelStatus::Error(message) => Some(
                (ModelFault::Unavailable, "Model is in error state: "@ + message@),
            ),
            ModelStatus::Unloaded => Some((ModelFault::Unavailable, "Model is unloaded"@)),
        },
    }
}

/// The place of the first input that breaks a rule; `None` where every
/// input is sound.
pub open spec fn first_unsound(inputs: Seq<InputData>) -> Option<int>
    decreases inputs.len(),
{
    if inputs.len() == 0 {
        None
    } else {
        match first_unsound(inputs.drop_last()) {
            Some(k) => Some(k),
            None => if input_fault(inputs.last()) is Some {
                Some(inputs.len() - 1)
            } else {
                None
            },
        }
    }
}

/// The first unsound input lies in the sequence, is unsound, and every
/// input before it is sound; where there is none, every input is sound.
pub proof fn lemma_first_unsound(inputs: Seq<InputData>)
    ensures
        match first_unsound(inputs) {
            Some(k) => 0 <= k < inputs.len() && input_fault(inputs[k]) is Some && forall|i: int|
                0 <= i < k ==> input_fault(#[trigger] inputs[i]) is None,
            None => forall|i: int| 0 <= i < inputs.len() ==> input_fault(#[trigger] inputs[i]) is None,
        },
    decreases inputs.len(),
{
    if inputs.len() > 0 {
        let front = inputs.drop_last();
        lemma_first_unsound(front);
        match first_unsound(front) {
            Some(k) => {
                assert(front[k] == inputs[k]);
                assert forall|i: int| 0 <= i < k implies input_fault(#[trigger] inputs[i]) is None by {
                    assert(front[i] == inputs[i]);
                }
            },
            None => {
                assert forall|i: int| 0 <= i < inputs.len() - 1 implies input_fault(
                    #[trigger] inputs[i],
                ) is None by {
                    assert(front[i] == inputs[i]);
                }
            },
        }
    }
}

/// Whether a wait ended with an answer.
pub open spec fn is_success(outcome: WaitOutcome) -> bool {
    outcome matches WaitOutcome::Answered(Ok(_))
}

/// The number of deliveries that carry an answer.
pub open spec fn answered(deliveries: Seq<Delivery>) -> nat
    decreases deliveries.len(),
{
    if deliveries.len() == 0 {
        0
    } else {
        answered(deliveries.drop_last()) + if deliveries.last().result is Ok {
            1nat
        } else {
            0nat
        }
    }
}

/// The latency under which a delivery goes into the ledger: the total
/// latency of an answer, and `elapsed_ms` for a failure.
pub open spec fn ledger_latency(delivery: Delivery, elapsed_ms: u64) -> u64 {
    match delivery.result {
        Ok(response) => response.metrics.total_latency_ms,
        Err(_) => elapsed_ms,
    }
}

/// The ledger after the deliveries went into it one by one at time `now`.
pub open spec fn recorded(
    stats: PerformanceStats,
    deliveries: Seq<Delivery>,
    elapsed_ms: u64,
    now: Timestamp,
) -> PerformanceStats
    decreases deliveries.len(),
{
    if deliveries.len() == 0 {
        stats
    } else {
        recorded(stats, deliveries.drop_last(), elapsed_ms, now).observed(
            ledger_latency(deliveries.last(), elapsed_ms),
            deliveries.last().result is Ok,
            now,
        )
    }
}

/// A model with another ledger.
pub open spec fn with_ledger(m: Model, stats: PerformanceStats) -> Model {
    Model { info: ModelInfo { performance_stats: stats, ..m.info }, ..m }
}

/// While the counter has room, the ledger counts every delivery once: the
/// total grows by the number of deliveries, the successes by the number of
/// answers, the failures by the rest.
pub proof fn lemma_recorded_counts(
    stats: PerformanceStats,
    deliveries: Seq<Delivery>,
    elapsed_ms: u64,
    now: Timestamp,
)
    requires
        stats.total_requests + deliveries.len() <= u64::MAX,
        stats.wf(),
    ensures
        ({
            let after = recorded(stats, deliveries, elapsed_ms, now);
            &&& after.wf()
            &&& after.total_requests == stats.total_requests + deliveries.len()
            &&& after.successful_requests == stats.successful_requests + answered(deliveries)
            &&& after.failed_requests == stats.failed_requests + deliveries.len() - answered(
                deliveries,
            )
        }),
    decreases deliveries.len(),
{
    if deliveries.len() > 0 {
        lemma_recorded_counts(stats, deliveries.drop_last(), elapsed_ms, now);
    }
}

/// The intake of predictions in front of the dispatcher.
#[derive(Debug)]
pub struct PredictionService {
    /// The dispatcher behind the service.
    pub batch_processor: BatchProcessor,
}

/// Whether the name of the part at place `at` occurs at an earlier place.
fn name_seen(parts: &Vec<NamedInput>, at: usize) -> (seen: bool)
    requires
        at < parts@.len(),
    ensures
        seen == name_repeats(parts@, at as int),
{
    let mut j: usize = 0;
    while j < at
        invariant
            0 <= j <= at < parts@.len(),
            forall|k: int| 0 <= k < j ==> (#[trigger] parts@[k]).name@ != parts@[at as int].name@,
        decreases at - j,
    {
        if parts[j].name == parts[at].name {
            return true;
        }
        j = j + 1;
    }
    false
}

impl PredictionService {
    /// A service over the given dispatcher.
    pub fn new(batch_processor: BatchProcessor) -> (service: Self)
        ensures
            service.batch_processor == batch_processor,
    {
        PredictionService { batch_processor }
    }

    /// Checks that the model that goes by `id` can serve a prediction: it is
    /// registered, loaded and healthy.
    pub fn validate_model_availability(models: &ModelManager, id: &ModelId) -> (r: Result<
        (),
        UniModelError,
    >)
        ensures
            match r {
                Ok(()) => availability_fault(models@, id@) is None,
                Err(e) => availability_fault(models@, id@) matches Some(fault) && e.is_model_fault(
                    fault.0,
                ) && e.message() == fault.1,
            },
    {
        match models.get_model_info(id) {
            Err(e) => Err(e),
            Ok(info) => match &info.status {
                ModelStatus::Ready | ModelStatus::Running => {
                    if info.health_status == HealthStatus::Healthy {
                        Ok(())
                    } else {
                        Err(UniModelError::model_unhealthy("Model is unhealthy"))
                    }
                },
                ModelStatus::Initializing | ModelStatus::Loading => Err(
                    UniModelError::model_unavailable("Model is not ready yet"),
                ),
                ModelStatus::Error(message) => {
                    let text = "Model is in error state: ".to_owned().concat(message.as_str());
                    Err(UniModelError::model_unavailable(text.as_str()))
                },
                ModelStatus::Unloaded => Err(UniModelError::model_unavailable("Model is unloaded")),
            },
        }
    }

    /// Checks the rules of an input and reports the first that is broken.
    pub fn validate_input_data(input: &InputData) -> (r: Result<(), UniModelError>)
        ensures
            match r {
                Ok(()) => input_fault(*input) is None && input_wf(*input),
                Err(e) => e is Validation && input_fault(*input) == Some(e.message()),
            },
        decreases input,
    {
        proof {
            if input_fault(*input) is None {
                lemma_sound_input_is_well_formed(*input);
            }
        }
        match input {
            InputData::Text(text) => {
                if text.as_str().is_empty() {
                    return Err(UniModelError::validation("Text input cannot be empty"));
                }
                if text.as_str().as_bytes().len() > MAX_TEXT_BYTES {
                    return Err(UniModelError::validation("Text input too large"));
                }
                Ok(())
            },
            InputData::Binary(bytes) => {
                if bytes.len() == 0 {
                    return Err(UniModelError::validation("Binary input cannot be empty"));
                }
                if bytes.len() > MAX_BINARY_BYTES {
                    return Err(UniModelError::validation("Binary input too large"));
                }
                Ok(())
            },
            InputData::Json(value) => {
                if value_is_null(value) {
                    return Err(UniModelError::validation("JSON input cannot be null"));
                }
                Ok(())
            },
            InputData::Multimodal(parts) => {
                if parts.len() == 0 {
                    return Err(UniModelError::validation("Multimodal input cannot be empty"));
                }
                let mut k: usize = 0;
                while k < parts.len()
                    invariant
                        0 <= k <= parts@.len(),
                        parts@.len() > 0,
                        *input is Multimodal,
                        input->Multimodal_0 == *parts,
                        input_fault(*input) == parts_fault(*parts, k as nat),
                    decreases parts@.len() - k,
                {
                    let part = &parts[k];
                    if part.name.as_str().is_empty() {
                        return Err(UniModelError::validation("Multimodal key cannot be empty"));
                    }
                    if name_seen(parts, k) {
                        return Err(UniModelError::validation("Multimodal key cannot repeat"));
                    }
                    assert(decreases_to!(input => part.value)) by {
                        assert(decreases_to!(*input => input->Multimodal_0));
                        assert(decreases_to!(*parts => parts@[k as int]));
                    }
                    match PredictionService::validate_input_data(&part.value) {
                        Err(e) => {
                            return Err(e);
                        },
                        Ok(()) => {},
                    }
                    k = k + 1;
                }
                Ok(())
            },
        }
    }

    /// Takes a prediction request for `model_id`: checks that the model is
    /// available, then that the input is sound, then submits the request to
    /// the dispatcher. The id of the request comes back; its answer follows
    /// from a later tick. A refusal changes nothing.
    pub fn predict(
        &mut self,
        models: &ModelManager,
        model_id: ModelId,
        input: InputData,
        parameters: PredictionParameters,
    ) -> (r: Result<RequestId, UniModelError>)
        ensures
            final(self).batch_processor.same_settings(old(self).batch_processor),
            final(self).batch_processor.pending() == old(self).batch_processor.pending(),
            r is Ok <==> availability_fault(models@, model_id@) is None && input_fault(input) is None
                && !old(self).batch_processor.is_stopped() && !old(self).batch_processor.is_overloaded(),
            match r {
                Ok(id) => {
                    let ingress = final(self).batch_processor.ingress();
                    &&& id@.len() == 36
                    &&& ingress.len() == old(self).batch_processor.ingress().len() + 1
                    &&& ingress.drop_last() == old(self).batch_processor.ingress()
                    &&& ingress.last().request_id@ == id@
                    &&& ingress.last().model_id == model_id
                    &&& ingress.last().input == input
                    &&& ingress.last().parameters == parameters
                },
                Err(e) => {
                    &&& final(self).batch_processor.ingress() == old(self).batch_processor.ingress()
                    &&& match availability_fault(models@, model_id@) {
                        Some(fault) => e.is_model_fault(fault.0) && e.message() == fault.1,
                        None => match input_fault(input) {
                            Some(message) => e is Validation && e.message() == message,
                            None => old(self).batch_processor.is_refusal(e),
                        },
                    }
                },
            },
    {
        match PredictionService::validate_model_availability(models, &model_id) {
            Err(e) => {
                return Err(e);
            },
            Ok(()) => {},
        }
        match PredictionService::validate_input_data(&input) {
            Err(e) => {
                return Err(e);
            },
            Ok(()) => {},
        }
        self.batch_processor.submit_request(model_id, input, parameters)
    }

    /// Takes one prediction request per input for `model_id`, in order, all
    /// with the same parameters.
    ///
    /// The model is checked once and every input is checked before any is
    /// submitted: a model that cannot serve or an input that is not sound
    /// refuses the whole call and changes nothing. Then the inputs are
    /// submitted in order; where the dispatcher refuses one, the call ends
    /// with that refusal and the requests before it stay submitted.
    pub fn batch_predict(
        &mut self,
        models: &ModelManager,
        model_id: ModelId,
        inputs: Vec<InputData>,
        parameters: PredictionParameters,
    ) -> (r: Result<Vec<RequestId>, UniModelError>)
        ensures
            final(self).batch_processor.same_settings(old(self).batch_processor),
            final(self).batch_processor.pending() == old(self).batch_processor.pending(),
            r is Ok <==> availability_fault(models@, model_id@) is None && first_unsound(inputs@)
                is None && old(self).batch_processor.takes(inputs@.len()),
            ({
                let before = old(self).batch_processor.ingress();
                let after = final(self).batch_processor.ingress();
                &&& before.len() <= after.len() <= before.len() + inputs@.len()
                &&& after.take(before.len() as int) == before
                &&& forall|i: int|
                    0 <= i < after.len() - before.len() ==> {
                        let request = #[trigger] after[before.len() + i];
                        &&& request.model_id@ == model_id@
                        &&& request.input == inputs@[i]
                        &&& request.parameters.same_as(parameters)
                    }
                &&& match r {
                    Ok(ids) => {
                        &&& ids@.len() == inputs@.len()
                        &&& after.len() == before.len() + inputs@.len()
                        &&& forall|i: int|
                            0 <= i < ids@.len() ==> (#[trigger] ids@[i])@ == after[before.len()
                                + i].request_id@
                    },
                    Err(e) => match availability_fault(models@, model_id@) {
                        Some(fault) => after == before && e.is_model_fault(fault.0) && e.message()
                            == fault.1,
                        None => match first_unsound(inputs@) {
                            Some(k) => after == before && e is Validation && input_fault(
                                inputs@[k],
                            ) == Some(e.message()),
                            None => {
                                &&& old(self).batch_processor.room() matches Some(taken)
                                &&& taken < inputs@.len()
                                &&& after.len() == before.len() + taken
                                &&& final(self).batch_processor.is_refusal(e)
                            },
                        },
                    },
                }
            }),
    {
        let ghost before = self.batch_processor.ingress();
        proof {
            assert(before.take(before.len() as int) =~= before);
        }
        match PredictionService::validate_model_availability(models, &model_id) {
            Err(e) => {
                return Err(e);
            },
            Ok(()) => {},
        }
        let mut k: usize = 0;
        while k < inputs.len()
            invariant
                0 <= k <= inputs@.len(),
                before == old(self).batch_processor.ingress(),
                before == self.batch_processor.ingress(),
                before.take(before.len() as int) == before,
                self.batch_processor.same_settings(old(self).batch_processor),
                self.batch_processor.pending() == old(self).batch_processor.pending(),
                availability_fault(models@, model_id@) is None,
                forall|i: int| 0 <= i < k ==> input_fault(#[trigger] inputs@[i]) is None,
            decreases inputs@.len() - k,
        {
            match PredictionService::validate_input_data(&inputs[k]) {
                Err(e) => {
                    proof {
                        lemma_first_unsound(inputs@);
                        let first = first_unsound(inputs@);
                        if first is None {
                            assert(input_fault(inputs@[k as int]) is None);
                        } else if first->Some_0 < k {
                            assert(input_fault(inputs@[first->Some_0]) is None);
                        } else if first->Some_0 > k {
                            assert(input_fault(inputs@[k as int]) is None);
                        }
                    }
                    return Err(e);
                },
                Ok(()) => {},
            }
            k = k + 1;
        }
        proof {
            lemma_first_unsound(inputs@);
            if first_unsound(inputs@) is Some {
                assert(input_fault(inputs@[first_unsound(inputs@)->Some_0]) is None);
            }
        }
        let ghost all = inputs@;
        let mut rest = inputs;
        let mut reversed: Vec<InputData> = Vec::new();
        while rest.len() > 0
            invariant
                first_unsound(all) is None,
                rest@.len() + reversed@.len() == all.len(),
                forall|i: int| 0 <= i < rest@.len() ==> rest@[i] == all[i],
                forall|i: int|
                    0 <= i < reversed@.len() ==> reversed@[i] == all[all.len() - 1 - i],
            decreases rest@.len(),
        {
            let last = rest.pop();
            match last {
                Some(input) => {
                    reversed.push(input);
                },
                None => {
                    assert(false);
                },
            }
        }
        let mut ids: Vec<RequestId> = Vec::new();
        while reversed.len() > 0
            invariant
                all == inputs@,
                first_unsound(all) is None,
                availability_fault(models@, model_id@) is None,
                old(self).batch_processor.room() matches Some(room) ==> ids@.len() <= room,
                ids@.len() + reversed@.len() == all.len(),
                forall|i: int|
                    0 <= i < reversed@.len() ==> reversed@[i] == all[all.len() - 1 - i],
                self.batch_processor.same_settings(old(self).batch_processor),
                self.batch_processor.pending() == old(self).batch_processor.pending(),
                before == old(self).batch_processor.ingress(),
                self.batch_processor.ingress().len() == before.len() + ids@.len(),
                self.batch_processor.ingress().take(before.len() as int) == before,
                forall|i: int|
                    0 <= i < ids@.len() ==> {
                        let request = #[trigger] self.batch_processor.ingress()[before.len() + i];
                        &&& request.model_id@ == model_id@
                        &&& request.input == all[i]
                        &&& request.parameters.same_as(parameters)
                        &&& ids@[i]@ == request.request_id@
                    },
            decreases reversed@.len(),
        {
            let ghost queue = self.batch_processor.ingress();
            let ghost done = ids@.len() as int;
            let next = reversed.pop();
            match next {
                Some(input) => {
                    assert(input == all[done]);
                    match self.batch_processor.submit_request(
                        model_id.clone(),
                        input,
                        parameters.clone(),
                    ) {
                        Err(e) => {
                            return Err(e);
                        },
                        Ok(id) => {
                            ids.push(id);
                            proof {
                                let grown = self.batch_processor.ingress();
                                assert(grown.drop_last() == queue);
                                assert(grown.take(before.len() as int) =~= queue.take(
                                    before.len() as int,
                                ));
                                assert forall|i: int| 0 <= i < ids@.len() implies {
                                    let request = #[trigger] grown[before.len() + i];
                                    &&& request.model_id@ == model_id@
                                    &&& request.input == all[i]
                                    &&& request.parameters.same_as(parameters)
                                    &&& ids@[i]@ == request.request_id@
                                } by {
                                    if i < done {
                                        assert(grown[before.len() + i] == queue[before.len() + i]);
                                    } else {
                                        assert(grown[before.len() + i] == grown.last());
                                    }
                                }
                            }
                        },
                    }
                },
                None => {
                    assert(false);
                },
            }
        }
        Ok(ids)
    }

    /// The result of a batch prediction once every wait has ended: the
    /// answers in order, or the first failure in order.
    pub fn finish_batch_predict(outcomes: Vec<WaitOutcome>) -> (r: Result<
        Vec<PredictionResponse>,
        UniModelError,
    >)
        ensures
            match r {
                Ok(responses) => responses@.len() == outcomes@.len() && forall|i: int|
                    0 <= i < outcomes@.len() ==> (#[trigger] outcomes@[i]) == WaitOutcome::Answered(
                        Ok(responses@[i]),
                    ),
                Err(e) => exists|k: int|
                    {
                        &&& 0 <= k < outcomes@.len()
                        &&& forall|i: int|
                            0 <= i < k ==> is_success(#[trigger] outcomes@[i])
                        &&& match #[trigger] outcomes@[k] {
                            WaitOutcome::Answered(result) => result == Err::<
                                PredictionResponse,
                                UniModelError,
                            >(e),
                            WaitOutcome::Closed => e is Internal && e.message()
                                == "Response channel closed"@,
                            WaitOutcome::TimedOut => e is Internal && e.message()
                                == "Request timeout"@,
                        }
                    },
            },
    {
        let ghost all = outcomes@;
        let mut rest = outcomes;
        let mut reversed: Vec<WaitOutcome> = Vec::new();
        while rest.len() > 0
            invariant
                rest@.len() + reversed@.len() == all.len(),
                forall|i: int| 0 <= i < rest@.len() ==> rest@[i] == all[i],
                forall|i: int|
                    0 <= i < reversed@.len() ==> reversed@[i] == all[all.len() - 1 - i],
            decreases rest@.len(),
        {
            let last = rest.pop();
            match last {
                Some(outcome) => {
                    reversed.push(outcome);
                },
                None => {
                    assert(false);
                },
            }
        }
        let mut responses: Vec<PredictionResponse> = Vec::new();
        while reversed.len() > 0
            invariant
                all == outcomes@,
                responses@.len() + reversed@.len() == all.len(),
                forall|i: int|
                    0 <= i < reversed@.len() ==> reversed@[i] == all[all.len() - 1 - i],
                forall|i: int|
                    0 <= i < responses@.len() ==> (#[trigger] all[i]) == WaitOutcome::Answered(
                        Ok(responses@[i]),
                    ),
            decreases reversed@.len(),
        {
            let ghost k = responses@.len() as int;
            let next = reversed.pop();
            match next {
                Some(outcome) => {
                    assert(outcome == all[k]);
                    match BatchProcessor::settle(outcome) {
                        Ok(response) => {
                            responses.push(response);
                        },
                        Err(e) => {
                            proof {
                                assert forall|i: int| 0 <= i < k implies is_success(#[trigger] all[i]) by {
                                    assert(all[i] == WaitOutcome::Answered(Ok(responses@[i])));
                                }
                                assert(match all[k] {
                                    WaitOutcome::Answered(result) => result == Err::<
                                        PredictionResponse,
                                        UniModelError,
                                    >(e),
                                    WaitOutcome::Closed => e is Internal && e.message()
                                        == "Response channel closed"@,
                                    WaitOutcome::TimedOut => e is Internal && e.message()
                                        == "Request timeout"@,
                                });
                            }
                            return Err(e);
                        },
                    }
                },
                None => {
                    assert(false);
                },
            }
        }
        Ok(responses)
    }

    /// Enters the deliveries of one batch into the ledger of the model that
    /// goes by `id`, at time `now`: every delivery is counted once, an answer
    /// as a success with its total latency, a failure as a failure with the
    /// `elapsed_ms` milliseconds that the batch took.
    ///
    /// Where the model is not registered nothing changes and the call is
    /// refused. While the ledger's counter has room, it grows by the number
    /// of deliveries, its successes by the number of answers, and its
    /// failures by the rest.
    pub fn record_deliveries(
        models: &mut ModelManager,
        id: &ModelId,
        deliveries: &Vec<Delivery>,
        elapsed_ms: u64,
        now: Timestamp,
    ) -> (r: Result<(), UniModelError>)
        requires
            old(models).wf(),
        ensures
            final(models).wf(),
            final(models).capacity() == old(models).capacity(),
            final(models)@.len() == old(models)@.len(),
            others_kept(old(models)@, final(models)@, id@),
            match lookup(old(models)@, id@) {
                None => r matches Err(e) && e.is_model_fault(ModelFault::NotFound) && e.message()
                    == "Model not found"@ && final(models)@ == old(models)@,
                Some(before) => {
                    &&& r is Ok
                    &&& lookup(final(models)@, id@) == Some(
                        with_ledger(
                            before,
                            recorded(before.info.performance_stats, deliveries@, elapsed_ms, now),
                        ),
                    )
                    &&& before.info.performance_stats.total_requests + deliveries@.len() <= u64::MAX
                        ==> {
                        let was = before.info.performance_stats;
                        let is = recorded(was, deliveries@, elapsed_ms, now);
                        &&& is.total_requests == was.total_requests + deliveries@.len()
                        &&& is.successful_requests == was.successful_requests + answered(
                            deliveries@,
                        )
                        &&& is.failed_requests == was.failed_requests + deliveries@.len() - answered(
                            deliveries@,
                        )
                    }
                },
            },
    {
        match models.get_model_info(id) {
            Err(e) => {
                return Err(e);
            },
            Ok(_) => {},
        }
        let ghost first = lookup(models@, id@)->Some_0;
        let mut k: usize = 0;
        proof {
            assert(deliveries@.take(0) =~= Seq::<Delivery>::empty());
            lemma_lookup_found(models@, id@);
            let i = choose|i: int| 0 <= i < models@.len() && models@[i] == first;
            assert(models@[i].wf());
        }
        while k < deliveries.len()
            invariant
                0 <= k <= deliveries@.len(),
                models.wf(),
                models.capacity() == old(models).capacity(),
                models@.len() == old(models)@.len(),
                others_kept(old(models)@, models@, id@),
                lookup(old(models)@, id@) == Some(first),
                first.wf(),
                lookup(models@, id@) == Some(
                    with_ledger(
                        first,
                        recorded(
                            first.info.performance_stats,
                            deliveries@.take(k as int),
                            elapsed_ms,
                            now,
                        ),
                    ),
                ),
            decreases deliveries@.len() - k,
        {
            let delivery = &deliveries[k];
            proof {
                assert(deliveries@.take(k as int + 1).drop_last() =~= deliveries@.take(k as int));
                assert(deliveries@.take(k as int + 1).last() == *delivery);
            }
            let done = match &delivery.result {
                Ok(response) => models.update_model_performance_at(
                    id,
                    response.metrics.total_latency_ms,
                    true,
                    now,
                ),
                Err(_) => models.update_model_performance_at(id, elapsed_ms, false, now),
            };
            assert(done is Ok);
            k = k + 1;
        }
        proof {
            assert(deliveries@.take(deliveries@.len() as int) =~= deliveries@);
            if first.info.performance_stats.total_requests + deliveries@.len() <= u64::MAX {
                lemma_recorded_counts(first.info.performance_stats, deliveries@, elapsed_ms, now);
            }
        }
        Ok(())
    }

    /// Ends a batch: turns the backend's outcome into one delivery per
    /// request, in the order of the batch, and enters every delivery into
    /// the ledger of the batch's model, at the time at which the report says
    /// the call was complete. A failure goes into the ledger with the time
    /// that the backend took.
    ///
    /// So the ledger counts exactly what the waiters of the batch receive.
    /// A model that is no longer registered has no ledger: its waiters get
    /// their deliveries all the same and the registry stays as it was.
    pub fn deliver_batch(
        models: &mut ModelManager,
        batch: BatchGroup,
        outcome: Result<Vec<OutputData>, UniModelError>,
        report: &ExecutionReport,
    ) -> (deliveries: Vec<Delivery>)
        requires
            old(models).wf(),
        ensures
            final(models).wf(),
            final(models).capacity() == old(models).capacity(),
            final(models)@.len() == old(models)@.len(),
            others_kept(old(models)@, final(models)@, batch.model_id@),
            deliveries@.len() == batch.requests@.len(),
            forall|i: int|
                0 <= i < deliveries@.len() ==> is_delivery(
                    #[trigger] deliveries@[i],
                    batch.requests@[i],
                    i,
                    batch.model_id,
                    batch.requests@.len(),
                    outcome,
                    *report,
                ),
            match lookup(old(models)@, batch.model_id@) {
                None => final(models)@ == old(models)@,
                Some(before) => {
                    &&& lookup(final(models)@, batch.model_id@) == Some(
                        with_ledger(
                            before,
                            recorded(
                                before.info.performance_stats,
                                deliveries@,
                                inference_time(*report),
                                report.completed_at,
                            ),
                        ),
                    )
                    &&& before.info.performance_stats.total_requests + deliveries@.len() <= u64::MAX
                        ==> {
                        let was = before.info.performance_stats;
                        let is = recorded(
                            was,
                            deliveries@,
                            inference_time(*report),
                            report.completed_at,
                        );
                        &&& is.total_requests == was.total_requests + batch.requests@.len()
                        &&& is.successful_requests == was.successful_requests + answered(
                            deliveries@,
                        )
                        &&& is.failed_requests == was.failed_requests + batch.requests@.len()
                            - answered(deliveries@)
                    }
                },
            },
    {
        let model_id = batch.model_id.clone();
        let elapsed_ms: u64 = if report.finished_at >= report.started_at {
            report.finished_at - report.started_at
        } else {
            0
        };
        let deliveries = BatchProcessor::complete_batch(batch, outcome, report);
        let _ = PredictionService::record_deliveries(
            models,
            &model_id,
            &deliveries,
            elapsed_ms,
            report.completed_at,
        );
        deliveries
    }
}

} // verus!
