//! Plain data carried between the layers: identifiers, payloads, prediction
//! parameters, timing metrics, health and resource readings, batch policy.

use std::collections::HashMap;
use vstd::prelude::*;

verus! {

/// Identifies a registered model.
pub type ModelId = String;

/// Identifies one prediction request for the life of the process.
pub type RequestId = String;

/// Identifies a node of a deployment.
pub type NodeId = String;

/// Identifies a backend executor.
pub type PluginId = String;

/// Wall-clock time in milliseconds since the Unix epoch.
pub type Timestamp = i64;

#[verifier::external_type_specification]
#[verifier::external_body]
pub struct ExJsonValue(serde_json::Value);

/// `Clone::clone` of `serde_json::Value`, which the crate derives: the copy
/// is the same JSON document.
pub assume_specification[ <serde_json::Value as Clone>::clone ](
    value: &serde_json::Value,
) -> (copy: serde_json::Value)
    ensures
        copy == *value,
;

/// Whether a JSON document is the `null` literal, as `serde_json::Value::is_null` tells it.
pub uninterp spec fn json_is_null(value: serde_json::Value) -> bool;

/// `serde_json::Value::is_null`: true for the `Null` variant and for no other.
#[verifier::external_body]
pub(crate) fn value_is_null(value: &serde_json::Value) -> (r: bool)
    ensures
        r == json_is_null(*value),
{
    value.is_null()
}

/// `uuid::Uuid::new_v4` shown through its `Display`: a random identifier in
/// the hyphenated form, which is always 36 characters long. Nothing is
/// claimed about which identifier comes back: two calls may even give the
/// same one. The call panics where the operating system has no random
/// bytes to give.
#[verifier::external_body]
fn random_uuid_text() -> (id: String)
    ensures
        id@.len() == 36,
{
    uuid::Uuid::new_v4().to_string()
}

/// `chrono::Utc::now` read through `DateTime::timestamp_millis`: the system
/// time, which `now` takes as a span since the Unix epoch, so never
/// negative. Nothing else is claimed: the clock may stand still or run
/// backwards between two calls. The call panics where the system clock
/// stands before the epoch.
#[verifier::external_body]
pub(crate) fn utc_now_millis() -> (now: Timestamp)
    ensures
        now >= 0,
{
    chrono::Utc::now().timestamp_millis()
}

#[verifier::external_type_specification]
#[verifier::external_body]
pub struct ExInstant(std::time::Instant);

/// `std::time::Instant::now`: the present reading of the monotonic clock.
#[verifier::external_body]
pub(crate) fn monotonic_now() -> std::time::Instant {
    std::time::Instant::now()
}

/// `std::time::Instant::elapsed` through `Duration::as_millis`: the whole
/// milliseconds that have passed on the monotonic clock since `origin` was
/// read. Nothing is claimed about how many they are.
#[verifier::external_body]
pub(crate) fn millis_since(origin: &std::time::Instant) -> u64 {
    origin.elapsed().as_millis() as u64
}

/// A fresh request id.
pub fn new_request_id() -> (id: RequestId)
    ensures
        id@.len() == 36,
{
    random_uuid_text()
}

/// A fresh model id.
pub fn new_model_id() -> (id: ModelId)
    ensures
        id@.len() == 36,
{
    random_uuid_text()
}

/// The mathematical content of a payload, shared by inputs and outputs.
pub enum PayloadView {
    Text(Seq<char>),
    Binary(Seq<u8>),
    Json(serde_json::Value),
    Multimodal(Seq<(Seq<char>, PayloadView)>),
}

/// One named part of a multimodal input.
#[derive(Debug, PartialEq)]
pub struct NamedInput {
    pub name: String,
    pub value: InputData,
}

/// What a caller sends to a model.
#[derive(Debug, PartialEq)]
pub enum InputData {
    /// Text.
    Text(String),
    /// Raw bytes, such as an image or audio.
    Binary(Vec<u8>),
    /// A JSON document.
    Json(serde_json::Value),
    /// Named parts, each an input of its own. A name occurs once: see
    /// [`input_wf`].
    Multimodal(Vec<NamedInput>),
}

/// One named part of a multimodal output.
#[derive(Debug, PartialEq)]
pub struct NamedOutput {
    pub name: String,
    pub value: OutputData,
}

/// What a model answers.
#[derive(Debug, PartialEq)]
pub enum OutputData {
    /// Text.
    Text(String),
    /// Raw bytes.
    Binary(Vec<u8>),
    /// A JSON document.
    Json(serde_json::Value),
    /// Named parts, each an output of its own. A name occurs once: see
    /// [`output_wf`].
    Multimodal(Vec<NamedOutput>),
}

/// Whether the names of the parts of a multimodal input differ from one
/// another.
pub open spec fn input_names_distinct(parts: Seq<NamedInput>) -> bool {
    forall|i: int, j: int|
        0 <= i < j < parts.len() ==> (#[trigger] parts[i]).name@ != (#[trigger] parts[j]).name@
}

/// Whether the names of the parts of a multimodal output differ from one
/// another.
pub open spec fn output_names_distinct(parts: Seq<NamedOutput>) -> bool {
    forall|i: int, j: int|
        0 <= i < j < parts.len() ==> (#[trigger] parts[i]).name@ != (#[trigger] parts[j]).name@
}

/// The invariant of an input: the parts of a multimodal input are a map
/// from names to inputs, so a name occurs once, at every depth.
pub open spec fn input_wf(input: InputData) -> bool
    decreases input,
{
    match input {
        InputData::Multimodal(parts) => input_names_distinct(parts@) && forall|k: int|
            0 <= k < parts@.len() ==> input_wf((#[trigger] parts@[k]).value),
        _ => true,
    }
}

/// The invariant of an output: the parts of a multimodal output are a map
/// from names to outputs, so a name occurs once, at every depth.
pub open spec fn output_wf(output: OutputData) -> bool
    decreases output,
{
    match output {
        OutputData::Multimodal(parts) => output_names_distinct(parts@) && forall|k: int|
            0 <= k < parts@.len() ==> output_wf((#[trigger] parts@[k]).value),
        _ => true,
    }
}

/// The content of an input.
pub open spec fn input_payload(input: InputData) -> PayloadView
    decreases input,
{
    match input {
        InputData::Text(text) => PayloadView::Text(text@),
        InputData::Binary(bytes) => PayloadView::Binary(bytes@),
        InputData::Json(value) => PayloadView::Json(value),
        InputData::Multimodal(parts) => PayloadView::Multimodal(
            Seq::new(
                parts@.len(),
                |k: int|
                    if 0 <= k < parts@.len() {
                        (parts@[k].name@, input_payload(parts@[k].value))
                    } else {
                        (Seq::empty(), PayloadView::Text(Seq::empty()))
                    },
            ),
        ),
    }
}

/// The content of an output.
pub open spec fn output_payload(output: OutputData) -> PayloadView
    decreases output,
{
    match output {
        OutputData::Text(text) => PayloadView::Text(text@),
        OutputData::Binary(bytes) => PayloadView::Binary(bytes@),
        OutputData::Json(value) => PayloadView::Json(value),
        OutputData::Multimodal(parts) => PayloadView::Multimodal(
            Seq::new(
                parts@.len(),
                |k: int|
                    if 0 <= k < parts@.len() {
                        (parts@[k].name@, output_payload(parts@[k].value))
                    } else {
                        (Seq::empty(), PayloadView::Text(Seq::empty()))
                    },
            ),
        ),
    }
}

impl View for InputData {
    type V = PayloadView;

    open spec fn view(&self) -> PayloadView {
        input_payload(*self)
    }
}

impl View for OutputData {
    type V = PayloadView;

    open spec fn view(&self) -> PayloadView {
        output_payload(*self)
    }
}

/// The payloads of a sequence of inputs, in order.
pub open spec fn input_payloads(inputs: Seq<InputData>) -> Seq<PayloadView> {
    Seq::new(inputs.len(), |i: int| inputs[i]@)
}

/// The payloads of a sequence of outputs, in order.
pub open spec fn output_payloads(outputs: Seq<OutputData>) -> Seq<PayloadView> {
    Seq::new(outputs.len(), |i: int| outputs[i]@)
}

impl Clone for InputData {
    fn clone(&self) -> (copy: Self)
        ensures
            copy@ == self@,
            input_wf(*self) ==> input_wf(copy),
        decreases self,
    {
        match self {
            InputData::Text(text) => InputData::Text(text.clone()),
            InputData::Binary(bytes) => InputData::Binary(bytes.clone()),
            InputData::Json(value) => InputData::Json(value.clone()),
            InputData::Multimodal(parts) => {
                let mut out: Vec<NamedInput> = Vec::new();
                let mut k: usize = 0;
                while k < parts.len()
                    invariant
                        0 <= k <= parts@.len(),
                        self->Multimodal_0 == *parts,
                        *self is Multimodal,
                        out@.len() == k,
                        forall|j: int|
                            0 <= j < k ==> (#[trigger] out@[j]).name@ == parts@[j].name@
                                && out@[j].value@ == parts@[j].value@,
                        forall|j: int|
                            0 <= j < k ==> (input_wf(parts@[j].value) ==> input_wf((#[trigger] out@[j]).value)),
                    decreases parts@.len() - k,
                {
                    let part = &parts[k];
                    assert(decreases_to!(self => part.value)) by {
                        assert(decreases_to!(*self => self->Multimodal_0));
                        assert(decreases_to!(*parts => parts@[k as int]));
                    }
                    out.push(NamedInput { name: part.name.clone(), value: part.value.clone() });
                    k = k + 1;
                }
                let copy = InputData::Multimodal(out);
                assert(copy@->Multimodal_0 =~= self@->Multimodal_0);
                proof {
                    if input_wf(*self) {
                        assert forall|a: int, b: int| 0 <= a < b < out@.len() implies (
                        #[trigger] out@[a]).name@ != (#[trigger] out@[b]).name@ by {
                            assert(parts@[a].name@ != parts@[b].name@);
                        }
                        assert forall|j: int| 0 <= j < out@.len() implies input_wf(
                            (#[trigger] out@[j]).value,
                        ) by {
                            assert(input_wf(parts@[j].value));
                        }
                    }
                }
                copy
            },
        }
    }
}

impl Clone for OutputData {
    fn clone(&self) -> (copy: Self)
        ensures
            copy@ == self@,
            output_wf(*self) ==> output_wf(copy),
        decreases self,
    {
        match self {
            OutputData::Text(text) => OutputData::Text(text.clone()),
            OutputData::Binary(bytes) => OutputData::Binary(bytes.clone()),
            OutputData::Json(value) => OutputData::Json(value.clone()),
            OutputData::Multimodal(parts) => {
                let mut out: Vec<NamedOutput> = Vec::new();
                let mut k: usize = 0;
                while k < parts.len()
                    invariant
                        0 <= k <= parts@.len(),
                        self->Multimodal_0 == *parts,
                        *self is Multimodal,
                        out@.len() == k,
                        forall|j: int|
                            0 <= j < k ==> (#[trigger] out@[j]).name@ == parts@[j].name@
                                && out@[j].value@ == parts@[j].value@,
                        forall|j: int|
                            0 <= j < k ==> (output_wf(parts@[j].value) ==> output_wf((#[trigger] out@[j]).value)),
                    decreases parts@.len() - k,
                {
                    let part = &parts[k];
                    assert(decreases_to!(self => part.value)) by {
                        assert(decreases_to!(*self => self->Multimodal_0));
                        assert(decreases_to!(*parts => parts@[k as int]));
                    }
                    out.push(NamedOutput { name: part.name.clone(), value: part.value.clone() });
                    k = k + 1;
                }
                let copy = OutputData::Multimodal(out);
                assert(copy@->Multimodal_0 =~= self@->Multimodal_0);
                proof {
                    if output_wf(*self) {
                        assert forall|a: int, b: int| 0 <= a < b < out@.len() implies (
                        #[trigger] out@[a]).name@ != (#[trigger] out@[b]).name@ by {
                            assert(parts@[a].name@ != parts@[b].name@);
                        }
                        assert forall|j: int| 0 <= j < out@.len() implies output_wf(
                            (#[trigger] out@[j]).value,
                        ) by {
                            assert(output_wf(parts@[j].value));
                        }
                    }
                }
                copy
            },
        }
    }
}

/// Options of one prediction. All are optional; the gateway hands them to
/// the backend and reads none of them.
#[derive(Debug, PartialEq)]
pub struct PredictionParameters {
    /// Most tokens to generate.
    pub max_tokens: Option<u32>,
    /// Sampling temperature, as the bit pattern of a single-precision number.
    pub temperature_bits: Option<u32>,
    /// Nucleus sampling mass, as the bit pattern of a single-precision number.
    pub top_p_bits: Option<u32>,
    /// Size of the sampling shortlist.
    pub top_k: Option<u32>,
    /// Whether the caller wants a streamed answer.
    pub stream: Option<bool>,
    /// Options that only the backend understands.
    pub custom: HashMap<String, serde_json::Value>,
}

impl PredictionParameters {
    /// Whether no option is set.
    pub open spec fn unset(self) -> bool {
        &&& self.max_tokens is None
        &&& self.temperature_bits is None
        &&& self.top_p_bits is None
        &&& self.top_k is None
        &&& self.stream is None
        &&& self.custom@ == Map::<String, serde_json::Value>::empty()
    }

    /// Whether two sets of parameters hold the same options.
    pub open spec fn same_as(self, other: PredictionParameters) -> bool {
        &&& self.max_tokens == other.max_tokens
        &&& self.temperature_bits == other.temperature_bits
        &&& self.top_p_bits == other.top_p_bits
        &&& self.top_k == other.top_k
        &&& self.stream == other.stream
        &&& self.custom@ == other.custom@
    }
}

impl Clone for PredictionParameters {
    fn clone(&self) -> (copy: Self)
        ensures
            copy.same_as(*self),
    {
        PredictionParameters {
            max_tokens: self.max_tokens,
            temperature_bits: self.temperature_bits,
            top_p_bits: self.top_p_bits,
            top_k: self.top_k,
            stream: self.stream,
            custom: self.custom.clone(),
        }
    }
}

impl Default for PredictionParameters {
    /// The parameters of a call that sets no option.
    fn default() -> (p: Self)
        ensures
            p.unset(),
    {
        PredictionParameters {
            max_tokens: None,
            temperature_bits: None,
            top_p_bits: None,
            top_k: None,
            stream: None,
            custom: HashMap::new(),
        }
    }
}

/// Timing and size figures of one answered request.
#[derive(Debug, Clone, PartialEq)]
pub struct PerformanceMetrics {
    pub request_id: RequestId,
    /// Wall-clock time at which handling began.
    pub start_time: Timestamp,
    /// Wall-clock time at which handling ended.
    pub end_time: Timestamp,
    /// From submission to the answer, in milliseconds.
    pub total_latency_ms: u64,
    /// Spent inside the backend, in milliseconds.
    pub inference_latency_ms: u64,
    /// Spent queued before the batch started, in milliseconds.
    pub queue_wait_ms: u64,
    pub preprocessing_ms: u64,
    pub postprocessing_ms: u64,
    pub tokens_generated: Option<u32>,
    pub tokens_input: Option<u32>,
    /// Tokens per second, as the bit pattern of a double-precision number.
    pub throughput_bits: Option<u64>,
    /// Number of requests in the batch that carried this one.
    pub batch_size: u32,
    /// Share of the accelerator in use, as the bit pattern of a single-precision number.
    pub gpu_utilization_bits: Option<u32>,
    pub memory_usage_mb: Option<u64>,
}

/// Health of a model or of the whole engine.
#[derive(Debug, Clone, Copy, PartialEq, Eq, Structural)]
pub enum HealthStatus {
    Healthy,
    Unhealthy,
    Unknown,
}

/// Traffic counters of the network interface.
#[derive(Debug, Clone, Copy, PartialEq, Eq, Structural)]
pub struct NetworkIO {
    pub bytes_received: u64,
    pub bytes_sent: u64,
    pub packets_received: u64,
    pub packets_sent: u64,
}

/// A reading of one accelerator.
#[derive(Debug, Clone, Copy, PartialEq, Eq)]
pub struct GpuUsage {
    pub device_id: u32,
    /// Share in use, as the bit pattern of a single-precision number.
    pub utilization_bits: u32,
    pub memory_used_bytes: u64,
    pub memory_total_bytes: u64,
    /// Degrees Celsius, as the bit pattern of a single-precision number.
    pub temperature_celsius_bits: Option<u32>,
    /// Watts, as the bit pattern of a single-precision number.
    pub power_usage_watts_bits: Option<u32>,
}

/// A reading of what the engine consumes.
#[derive(Debug, Clone, PartialEq)]
pub struct ResourceUsage {
    /// Processor share in use, as the bit pattern of a single-precision number.
    pub cpu_usage_bits: u32,
    pub memory_usage_bytes: u64,
    pub total_memory_bytes: u64,
    pub gpu_usage: Vec<GpuUsage>,
    pub disk_usage_bytes: u64,
    pub network_io: NetworkIO,
    pub timestamp: Timestamp,
}

/// When the dispatcher closes a group of requests and how long a caller waits.
#[derive(Debug, Clone, Copy, PartialEq, Eq, Structural)]
pub struct BatchConfig {
    /// Most requests in one batch.
    pub max_batch_size: u32,
    /// Longest time a request may wait for its batch, in milliseconds.
    pub max_wait_time_ms: u64,
    /// Whether inputs of unequal length are padded per batch.
    pub dynamic_padding: bool,
    /// Longest time a caller waits for the answer, in milliseconds.
    pub timeout_ms: u64,
}

impl Default for BatchConfig {
    fn default() -> (c: Self)
        ensures
            c == (BatchConfig {
                max_batch_size: 32,
                max_wait_time_ms: 50,
                dynamic_padding: true,
                timeout_ms: 30000,
            }),
    {
        BatchConfig { max_batch_size: 32, max_wait_time_ms: 50, dynamic_padding: true, timeout_ms: 30000 }
    }
}

} // verus!
