//! The micro-batching dispatcher.
//!
//! Requests enter through an ingress queue. On every tick the dispatcher
//! moves them into its pending buffer, gives up those that waited too long,
//! groups the others by model, and closes every group that is full, whose
//! oldest request reached its deadline, or that a shutdown drains. A closed
//! group leaves as batches of at most the model's batch size, in arrival
//! order. The caller runs each batch through its backend and brings the
//! outcome back, and the dispatcher turns it into one answer per request.

use crate::common::error::{BatchFault, UniModelError};
use crate::common::types::{
    input_wf, millis_since, monotonic_now, new_request_id, output_wf, BatchConfig, InputData,
    ModelId, NamedOutput, OutputData, PayloadView, PerformanceMetrics, PredictionParameters,
    RequestId, Timestamp,
};
use crate::domain::service::model_manager::ModelManager;
use crate::infrastructure::configuration::Config;
use std::collections::{HashMap, VecDeque};
use vstd::prelude::*;
use vstd::string::StringExecFns;

verus! {

/// One request on its way through the dispatcher.
#[derive(Debug)]
pub struct BatchRequest {
    pub request_id: RequestId,
    pub model_id: ModelId,
    pub input: InputData,
    pub parameters: PredictionParameters,
    /// When the request was submitted, in milliseconds of the dispatcher's clock.
    pub submitted_at: u64,
}

/// Requests for one model that go to the backend in one call, in arrival order.
#[derive(Debug)]
pub struct BatchGroup {
    pub model_id: ModelId,
    pub requests: Vec<BatchRequest>,
    /// When the batch was closed, in milliseconds of the dispatcher's clock.
    pub created_at: u64,
}

/// The batch policy of every model id.
pub type PolicyTable = spec_fn(Seq<char>) -> BatchConfig;

/// How long a request has waited at time `now`.
pub open spec fn age(request: BatchRequest, now: u64) -> nat {
    if now >= request.submitted_at {
        (now - request.submitted_at) as nat
    } else {
        0
    }
}

/// Whether a request has outlived the queue deadline of its model.
pub open spec fn is_expired(request: BatchRequest, now: u64, policy: PolicyTable) -> bool {
    age(request, now) > policy(request.model_id@).max_wait_time_ms
}

/// The test of [`is_expired`].
pub open spec fn expired_test(now: u64, policy: PolicyTable) -> spec_fn(BatchRequest) -> bool {
    |request: BatchRequest| is_expired(request, now, policy)
}

/// The opposite of a test.
pub open spec fn negate(test: spec_fn(BatchRequest) -> bool) -> spec_fn(BatchRequest) -> bool {
    |request: BatchRequest| !test(request)
}

/// The test that a request passes when it is for `model`.
pub open spec fn of_model(model: Seq<char>) -> spec_fn(BatchRequest) -> bool {
    |request: BatchRequest| request.model_id@ == model
}

/// The requests that are given up at time `now`, in arrival order.
pub open spec fn expired_of(pending: Seq<BatchRequest>, now: u64, policy: PolicyTable) -> Seq<
    BatchRequest,
> {
    pending.filter(expired_test(now, policy))
}

/// The requests that stay in consideration at time `now`, in arrival order.
pub open spec fn live_of(pending: Seq<BatchRequest>, now: u64, policy: PolicyTable) -> Seq<
    BatchRequest,
> {
    pending.filter(negate(expired_test(now, policy)))
}

/// The group of a model: its requests among `live`, in arrival order.
pub open spec fn group_of(live: Seq<BatchRequest>, model: Seq<char>) -> Seq<BatchRequest> {
    live.filter(of_model(model))
}

/// Whether some request for `model` among `live` has reached the queue
/// deadline `wait`.
pub open spec fn deadline_reached(live: Seq<BatchRequest>, model: Seq<char>, now: u64, wait: u64) -> bool {
    exists|k: int|
        0 <= k < live.len() && (#[trigger] live[k]).model_id@ == model && age(live[k], now) >= wait
}

/// Whether the group of `model` is closed now under the policy `config`: it
/// is not empty, and it is full, or its oldest request reached the deadline,
/// or a shutdown drains it.
pub open spec fn is_due_under(
    live: Seq<BatchRequest>,
    model: Seq<char>,
    now: u64,
    config: BatchConfig,
    draining: bool,
) -> bool {
    let size = group_of(live, model).len();
    size > 0 && (draining || size >= config.max_batch_size || deadline_reached(
        live,
        model,
        now,
        config.max_wait_time_ms,
    ))
}

/// Whether the group of `model` is closed now under its own policy.
pub open spec fn is_due(
    live: Seq<BatchRequest>,
    model: Seq<char>,
    now: u64,
    policy: PolicyTable,
    draining: bool,
) -> bool {
    is_due_under(live, model, now, policy(model), draining)
}

/// The batch policy of every model id: that of the registered model, and
/// `fallback` for an id that is not registered.
pub open spec fn policy_table(models: ModelManager, fallback: BatchConfig) -> PolicyTable {
    |id: Seq<char>| models.policy_or(fallback, id)
}

/// Whether a batch is as the dispatcher closes one at time `now`: not
/// empty, named after the model of its first request, and stamped `now`.
pub open spec fn is_closed_batch(batch: BatchGroup, now: u64) -> bool {
    &&& batch.requests@.len() > 0
    &&& batch.model_id@ == batch.requests@[0].model_id@
    &&& batch.created_at == now
}

/// The test that a request passes when the group of its model is closed.
pub open spec fn due_test(live: Seq<BatchRequest>, now: u64, policy: PolicyTable, draining: bool) -> spec_fn(
    BatchRequest,
) -> bool {
    |request: BatchRequest| is_due(live, request.model_id@, now, policy, draining)
}

/// The requests that leave in batches, in arrival order.
pub open spec fn flushed_of(live: Seq<BatchRequest>, now: u64, policy: PolicyTable, draining: bool) -> Seq<
    BatchRequest,
> {
    live.filter(due_test(live, now, policy, draining))
}

/// The requests that stay pending for the next tick, in arrival order.
pub open spec fn kept_of(live: Seq<BatchRequest>, now: u64, policy: PolicyTable, draining: bool) -> Seq<
    BatchRequest,
> {
    live.filter(negate(due_test(live, now, policy, draining)))
}

/// The number of requests per batch under a policy: its batch size, and one
/// where the policy names none.
pub open spec fn chunk_size(policy: BatchConfig) -> nat {
    if policy.max_batch_size == 0 {
        1
    } else {
        policy.max_batch_size as nat
    }
}

/// A group cut into consecutive batches of `size` requests; the last batch
/// may be smaller.
pub open spec fn chunks(group: Seq<BatchRequest>, size: nat) -> Seq<Seq<BatchRequest>>
    decreases group.len(),
{
    if group.len() == 0 {
        Seq::empty()
    } else if size == 0 || group.len() <= size {
        seq![group]
    } else {
        seq![group.take(size as int)] + chunks(group.skip(size as int), size)
    }
}

/// The batches in which the flushed requests leave: model by model, in the
/// order in which the models first occur, each model's group cut by its
/// batch size.
pub open spec fn batches_of(flushed: Seq<BatchRequest>, policy: PolicyTable) -> Seq<Seq<BatchRequest>>
    decreases flushed.len(),
{
    if flushed.len() == 0 {
        Seq::empty()
    } else {
        let model = flushed[0].model_id@;
        proof {
            lemma_rest_is_shorter(flushed);
        }
        chunks(group_of(flushed, model), chunk_size(policy(model))) + batches_of(
            flushed.filter(negate(of_model(model))),
            policy,
        )
    }
}

/// The requests of each batch of a sequence of batches.
pub open spec fn requests_of(batches: Seq<BatchGroup>) -> Seq<Seq<BatchRequest>> {
    Seq::new(batches.len(), |i: int| batches[i].requests@)
}

/// A test and its opposite split a sequence: the lengths of the two parts
/// add up.
pub proof fn lemma_split_lengths(items: Seq<BatchRequest>, test: spec_fn(BatchRequest) -> bool)
    ensures
        items.filter(test).len() + items.filter(negate(test)).len() == items.len(),
    decreases items.len(),
{
    reveal(Seq::filter);
    if items.len() > 0 {
        lemma_split_lengths(items.drop_last(), test);
    }
}

/// Taking a model's group out of a sequence that begins with a request for
/// that model leaves a shorter sequence.
pub proof fn lemma_rest_is_shorter(flushed: Seq<BatchRequest>)
    requires
        flushed.len() > 0,
    ensures
        flushed.filter(negate(of_model(flushed[0].model_id@))).len() < flushed.len(),
        group_of(flushed, flushed[0].model_id@).len() > 0,
{
    let test = of_model(flushed[0].model_id@);
    lemma_split_lengths(flushed, test);
    lemma_first_passes(flushed, test);
}

/// Where the first element passes a test, it is the first of the filtered
/// sequence.
pub proof fn lemma_first_passes(items: Seq<BatchRequest>, test: spec_fn(BatchRequest) -> bool)
    requires
        items.len() > 0,
        test(items[0]),
    ensures
        items.filter(test).len() > 0,
        items.filter(test)[0] == items[0],
    decreases items.len(),
{
    reveal(Seq::filter);
    if items.len() > 1 {
        lemma_first_passes(items.drop_last(), test);
    } else {
        assert(items.drop_last().filter(test) =~= Seq::<BatchRequest>::empty());
    }
}

/// Splits a queue by a test that was decided per place: the elements that
/// pass, and the others, each in their order.
fn split(items: VecDeque<BatchRequest>, passes: &Vec<bool>, Ghost(test): Ghost<
    spec_fn(BatchRequest) -> bool,
>) -> (parts: (VecDeque<BatchRequest>, VecDeque<BatchRequest>))
    requires
        passes@.len() == items@.len(),
        forall|i: int| 0 <= i < items@.len() ==> passes@[i] == test(#[trigger] items@[i]),
    ensures
        parts.0@ == items@.filter(test),
        parts.1@ == items@.filter(negate(test)),
{
    let ghost all = items@;
    let mut items = items;
    let mut yes: VecDeque<BatchRequest> = VecDeque::new();
    let mut no: VecDeque<BatchRequest> = VecDeque::new();
    let mut i: usize = 0;
    proof {
        reveal(Seq::filter);
        assert(all.take(0).filter(test) =~= Seq::<BatchRequest>::empty());
        assert(all.take(0).filter(negate(test)) =~= Seq::<BatchRequest>::empty());
    }
    while i < passes.len()
        invariant
            0 <= i <= all.len(),
            passes@.len() == all.len(),
            items@ == all.skip(i as int),
            forall|k: int| 0 <= k < all.len() ==> passes@[k] == test(#[trigger] all[k]),
            yes@ == all.take(i as int).filter(test),
            no@ == all.take(i as int).filter(negate(test)),
        decreases all.len() - i,
    {
        let next = items.pop_front();
        match next {
            Some(item) => {
                proof {
                    assert(item == all[i as int]);
                    assert(all.take(i as int + 1) =~= all.take(i as int).push(item));
                    Seq::lemma_filter_push(all.take(i as int), item, test);
                    Seq::lemma_filter_push(all.take(i as int), item, negate(test));
                    assert(all.skip(i as int).subrange(1, all.skip(i as int).len() as int)
                        =~= all.skip(i as int + 1));
                }
                if passes[i] {
                    yes.push_back(item);
                } else {
                    no.push_back(item);
                }
            },
            None => {
                assert(false);
            },
        }
        i = i + 1;
    }
    proof {
        assert(all.take(all.len() as int) =~= all);
    }
    (yes, no)
}

/// How long a request has waited at time `now`.
fn waited(request: &BatchRequest, now: u64) -> (ms: u64)
    ensures
        ms == age(*request, now),
{
    if now >= request.submitted_at {
        now - request.submitted_at
    } else {
        0
    }
}

/// Decides for every pending request whether it is given up.
fn expired_flags(
    pending: &VecDeque<BatchRequest>,
    models: &ModelManager,
    fallback: BatchConfig,
    now: u64,
) -> (flags: Vec<bool>)
    ensures
        flags@.len() == pending@.len(),
        forall|i: int|
            0 <= i < pending@.len() ==> flags@[i] == expired_test(now, policy_table(*models, fallback))(
                #[trigger] pending@[i],
            ),
{
    let mut flags: Vec<bool> = Vec::new();
    let mut i: usize = 0;
    while i < pending.len()
        invariant
            0 <= i <= pending@.len(),
            flags@.len() == i,
            forall|k: int|
                0 <= k < i ==> flags@[k] == expired_test(now, policy_table(*models, fallback))(
                    #[trigger] pending@[k],
                ),
        decreases pending@.len() - i,
    {
        let request = &pending[i];
        let config = models.batch_policy(&request.model_id, fallback);
        flags.push(waited(request, now) > config.max_wait_time_ms);
        i = i + 1;
    }
    flags
}

/// Decides for every request whether it is for `model`.
fn model_flags(items: &VecDeque<BatchRequest>, model: &ModelId) -> (flags: Vec<bool>)
    ensures
        flags@.len() == items@.len(),
        forall|i: int| 0 <= i < items@.len() ==> flags@[i] == of_model(model@)(#[trigger] items@[i]),
{
    let mut flags: Vec<bool> = Vec::new();
    let mut i: usize = 0;
    while i < items.len()
        invariant
            0 <= i <= items@.len(),
            flags@.len() == i,
            forall|k: int| 0 <= k < i ==> flags@[k] == of_model(model@)(#[trigger] items@[k]),
        decreases items@.len() - i,
    {
        flags.push(items[i].model_id == *model);
        i = i + 1;
    }
    flags
}

/// Decides whether the group of `model` is closed now.
fn group_due(
    live: &VecDeque<BatchRequest>,
    model: &ModelId,
    config: BatchConfig,
    now: u64,
    draining: bool,
) -> (due: bool)
    ensures
        due == is_due_under(live@, model@, now, config, draining),
{
    let mut size: usize = 0;
    let mut reached = false;
    let mut i: usize = 0;
    proof {
        reveal(Seq::filter);
        assert(live@.take(0).filter(of_model(model@)) =~= Seq::<BatchRequest>::empty());
    }
    while i < live.len()
        invariant
            0 <= i <= live@.len(),
            size == live@.take(i as int).filter(of_model(model@)).len(),
            size <= i,
            reached == deadline_reached(live@.take(i as int), model@, now, config.max_wait_time_ms),
        decreases live@.len() - i,
    {
        let request = &live[i];
        let ghost before = live@.take(i as int);
        let ghost after = live@.take(i as int + 1);
        proof {
            assert(after =~= before.push(*request));
            Seq::lemma_filter_push(before, *request, of_model(model@));
        }
        if request.model_id == *model {
            size = size + 1;
            if waited(request, now) >= config.max_wait_time_ms {
                reached = true;
            }
        }
        proof {
            let wait = config.max_wait_time_ms;
            if deadline_reached(before, model@, now, wait) {
                let k = choose|k: int|
                    0 <= k < before.len() && (#[trigger] before[k]).model_id@ == model@ && age(
                        before[k],
                        now,
                    ) >= wait;
                assert(after[k] == before[k]);
            }
            if request.model_id@ == model@ && age(*request, now) >= wait {
                assert(after[i as int] == *request);
            }
            if deadline_reached(after, model@, now, wait) {
                let k = choose|k: int|
                    0 <= k < after.len() && (#[trigger] after[k]).model_id@ == model@ && age(
                        after[k],
                        now,
                    ) >= wait;
                if k < i {
                    assert(before[k] == after[k]);
                }
            }
        }
        i = i + 1;
    }
    proof {
        assert(live@.take(live@.len() as int) =~= live@);
    }
    size > 0 && (draining || size >= config.max_batch_size as usize || reached)
}

/// Decides for every live request whether the group of its model is closed
/// now. A group is judged once, at its first request.
fn due_flags(
    live: &VecDeque<BatchRequest>,
    models: &ModelManager,
    fallback: BatchConfig,
    now: u64,
    draining: bool,
) -> (flags: Vec<bool>)
    ensures
        flags@.len() == live@.len(),
        forall|i: int|
            0 <= i < live@.len() ==> flags@[i] == due_test(
                live@,
                now,
                policy_table(*models, fallback),
                draining,
            )(#[trigger] live@[i]),
{
    let ghost policy = policy_table(*models, fallback);
    let mut flags: Vec<bool> = Vec::new();
    let mut judged_at: Vec<usize> = Vec::new();
    let mut judged_due: Vec<bool> = Vec::new();
    let mut i: usize = 0;
    while i < live.len()
        invariant
            0 <= i <= live@.len(),
            flags@.len() == i,
            policy == policy_table(*models, fallback),
            judged_at@.len() == judged_due@.len(),
            forall|k: int|
                0 <= k < judged_at@.len() ==> (#[trigger] judged_at@[k]) < live@.len()
                    && judged_due@[k] == is_due(
                    live@,
                    live@[judged_at@[k] as int].model_id@,
                    now,
                    policy,
                    draining,
                ),
            forall|j: int|
                0 <= j < i ==> flags@[j] == is_due(
                    live@,
                    (#[trigger] live@[j]).model_id@,
                    now,
                    policy,
                    draining,
                ),
        decreases live@.len() - i,
    {
        let model = &live[i].model_id;
        let mut known: Option<bool> = None;
        let mut k: usize = 0;
        while k < judged_at.len() && known.is_none()
            invariant
                0 <= k <= judged_at@.len(),
                judged_at@.len() == judged_due@.len(),
                i < live@.len(),
                *model == live@[i as int].model_id,
                forall|k: int|
                    0 <= k < judged_at@.len() ==> (#[trigger] judged_at@[k]) < live@.len()
                        && judged_due@[k] == is_due(
                        live@,
                        live@[judged_at@[k] as int].model_id@,
                        now,
                        policy,
                        draining,
                    ),
                known matches Some(due) ==> due == is_due(live@, model@, now, policy, draining),
            decreases judged_at@.len() - k,
        {
            let at = judged_at[k];
            assert(at == judged_at@[k as int]);
            assert(at < live@.len());
            if live[at].model_id == *model {
                known = Some(judged_due[k]);
            }
            k = k + 1;
        }
        let due = match known {
            Some(due) => due,
            None => {
                let config = models.batch_policy(model, fallback);
                let due = group_due(live, model, config, now, draining);
                judged_at.push(i);
                judged_due.push(due);
                due
            },
        };
        flags.push(due);
        i = i + 1;
    }
    flags
}

/// Cuts a closed group into batches of at most `size` requests and appends
/// them to `batches`.
fn cut_into_batches(group: VecDeque<BatchRequest>, size: usize, now: u64, batches: &mut Vec<BatchGroup>)
    requires
        size > 0,
        forall|i: int| 0 <= i < old(batches)@.len() ==> is_closed_batch(#[trigger] old(batches)@[i], now),
    ensures
        requests_of(final(batches)@) == requests_of(old(batches)@) + chunks(group@, size as nat),
        forall|i: int|
            0 <= i < final(batches)@.len() ==> is_closed_batch(#[trigger] final(batches)@[i], now),
{
    let ghost whole = group@;
    let ghost start = requests_of(batches@);
    let mut group = group;
    proof {
        assert(requests_of(batches@) + chunks(group@, size as nat) =~= start + chunks(whole, size as nat));
    }
    while group.len() > 0
        invariant
            size > 0,
            requests_of(batches@) + chunks(group@, size as nat) == start + chunks(whole, size as nat),
            forall|i: int| 0 <= i < batches@.len() ==> is_closed_batch(#[trigger] batches@[i], now),
        decreases group@.len(),
    {
        let ghost rest = group@;
        let ghost done = requests_of(batches@);
        let take = if group.len() <= size {
            group.len()
        } else {
            size
        };
        let mut requests: Vec<BatchRequest> = Vec::new();
        let mut n: usize = 0;
        while n < take
            invariant
                0 <= n <= take <= rest.len(),
                requests@ == rest.take(n as int),
                group@ == rest.skip(n as int),
            decreases take - n,
        {
            let next = group.pop_front();
            match next {
                Some(request) => {
                    proof {
                        assert(request == rest[n as int]);
                        assert(rest.take(n as int + 1) =~= rest.take(n as int).push(request));
                        assert(rest.skip(n as int).subrange(1, rest.skip(n as int).len() as int)
                            =~= rest.skip(n as int + 1));
                    }
                    requests.push(request);
                },
                None => {
                    assert(false);
                },
            }
            n = n + 1;
        }
        let model_id = requests[0].model_id.clone();
        let batch = BatchGroup { model_id, requests, created_at: now };
        proof {
            assert(rest.len() > 0);
            if rest.len() <= size {
                assert(rest.take(take as int) =~= rest);
                assert(chunks(rest, size as nat) =~= seq![rest]);
                assert(group@ =~= Seq::<BatchRequest>::empty());
                assert(chunks(group@, size as nat) =~= Seq::<Seq<BatchRequest>>::empty());
            } else {
                assert(chunks(rest, size as nat) =~= seq![rest.take(size as int)] + chunks(
                    rest.skip(size as int),
                    size as nat,
                ));
            }
            assert(requests_of(batches@.push(batch)) =~= done.push(batch.requests@));
            assert(done.push(batch.requests@) + chunks(group@, size as nat) =~= done + chunks(
                rest,
                size as nat,
            ));
        }
        batches.push(batch);
    }
    proof {
        assert(chunks(group@, size as nat) =~= Seq::<Seq<BatchRequest>>::empty());
        assert(requests_of(batches@) + Seq::<Seq<BatchRequest>>::empty() =~= requests_of(batches@));
    }
}

/// Forms the batches in which the flushed requests leave.
fn form_batches(
    flushed: VecDeque<BatchRequest>,
    models: &ModelManager,
    fallback: BatchConfig,
    now: u64,
) -> (batches: Vec<BatchGroup>)
    ensures
        requests_of(batches@) == batches_of(flushed@, policy_table(*models, fallback)),
        forall|i: int| 0 <= i < batches@.len() ==> is_closed_batch(#[trigger] batches@[i], now),
{
    let ghost whole = flushed@;
    let ghost policy = policy_table(*models, fallback);
    let mut flushed = flushed;
    let mut batches: Vec<BatchGroup> = Vec::new();
    proof {
        assert(requests_of(batches@) =~= Seq::<Seq<BatchRequest>>::empty());
        assert(requests_of(batches@) + batches_of(flushed@, policy) =~= batches_of(whole, policy));
    }
    while flushed.len() > 0
        invariant
            policy == policy_table(*models, fallback),
            requests_of(batches@) + batches_of(flushed@, policy) == batches_of(whole, policy),
            forall|i: int| 0 <= i < batches@.len() ==> is_closed_batch(#[trigger] batches@[i], now),
        decreases flushed@.len(),
    {
        let ghost rest = flushed@;
        let ghost done = requests_of(batches@);
        let model = flushed[0].model_id.clone();
        let flags = model_flags(&flushed, &model);
        let (group, others) = split(flushed, &flags, Ghost(of_model(model@)));
        let config = models.batch_policy(&model, fallback);
        let size: usize = if config.max_batch_size == 0 {
            1
        } else {
            config.max_batch_size as usize
        };
        proof {
            lemma_rest_is_shorter(rest);
            assert(size as nat == chunk_size(policy(model@)));
            assert(batches_of(rest, policy) == chunks(group@, size as nat) + batches_of(
                others@,
                policy,
            ));
        }
        cut_into_batches(group, size, now, &mut batches);
        flushed = others;
        proof {
            assert(requests_of(batches@) + batches_of(flushed@, policy) =~= done + batches_of(
                rest,
                policy,
            ));
        }
    }
    proof {
        assert(batches_of(flushed@, policy) =~= Seq::<Seq<BatchRequest>>::empty());
        assert(requests_of(batches@) + Seq::<Seq<BatchRequest>>::empty() =~= requests_of(batches@));
    }
    batches
}

/// Moves a queue into a vector, in order.
fn into_vec<T>(queue: VecDeque<T>) -> (items: Vec<T>)
    ensures
        items@ == queue@,
{
    let ghost whole = queue@;
    let mut queue = queue;
    let mut items: Vec<T> = Vec::new();
    while queue.len() > 0
        invariant
            items@ + queue@ == whole,
        decreases queue@.len(),
    {
        let ghost rest = queue@;
        let ghost done = items@;
        let next = queue.pop_front();
        match next {
            Some(item) => {
                items.push(item);
                proof {
                    assert(items@ + queue@ =~= done + rest);
                }
            },
            None => {
                assert(false);
            },
        }
    }
    proof {
        assert(items@ + queue@ =~= items@);
    }
    items
}

/// Moves a vector into a queue, in order.
fn into_queue<T>(items: Vec<T>) -> (queue: VecDeque<T>)
    ensures
        queue@ == items@,
{
    let ghost whole = items@;
    let mut items = items;
    let mut queue: VecDeque<T> = VecDeque::new();
    while items.len() > 0
        invariant
            items@ + queue@ == whole,
        decreases items@.len(),
    {
        let ghost rest = items@;
        let ghost done = queue@;
        let last = items.pop();
        match last {
            Some(item) => {
                queue.push_front(item);
                proof {
                    assert(items@ + queue@ =~= rest + done);
                }
            },
            None => {
                assert(false);
            },
        }
    }
    proof {
        assert(items@ + queue@ =~= queue@);
    }
    queue
}

/// What one tick hands to the caller.
#[derive(Debug)]
pub struct BatchPlan {
    /// The requests that are given up, in arrival order. Each waiter gets
    /// the expiry error.
    pub expired: Vec<BatchRequest>,
    /// The batches to run, each through the backend of its model.
    pub batches: Vec<BatchGroup>,
}

/// A reading of the dispatcher.
#[derive(Debug, Clone, Copy, PartialEq, Eq, Structural)]
pub struct BatchStats {
    /// Requests in the pending buffer.
    pub pending_requests: usize,
    pub is_running: bool,
    /// Requests that left in batches so far.
    pub total_processed: u64,
    /// Requests per batch so far, in thousandths.
    pub avg_batch_size_milli: u64,
}

/// Whether `plan` and `kept` are what one pass at time `now` makes of the
/// pending buffer `pending`: the expired requests, the batches of the closed
/// groups, and the requests that stay.
pub open spec fn is_pass(
    pending: Seq<BatchRequest>,
    policy: PolicyTable,
    draining: bool,
    now: u64,
    plan: BatchPlan,
    kept: Seq<BatchRequest>,
) -> bool {
    let live = live_of(pending, now, policy);
    &&& plan.expired@ == expired_of(pending, now, policy)
    &&& requests_of(plan.batches@) == batches_of(flushed_of(live, now, policy, draining), policy)
    &&& kept == kept_of(live, now, policy, draining)
    &&& forall|i: int|
        0 <= i < plan.batches@.len() ==> is_closed_batch(#[trigger] plan.batches@[i], now)
}

/// The number of requests that leave in batches on one pass at time `now`.
pub open spec fn flushed_count(
    pending: Seq<BatchRequest>,
    policy: PolicyTable,
    draining: bool,
    now: u64,
) -> nat {
    flushed_of(live_of(pending, now, policy), now, policy, draining).len()
}

/// The dispatcher.
#[derive(Debug)]
pub struct BatchProcessor {
    default_policy: BatchConfig,
    max_models: u32,
    high_watermark: Option<usize>,
    ingress: VecDeque<BatchRequest>,
    pending_requests: VecDeque<BatchRequest>,
    running: bool,
    stopped: bool,
    origin: std::time::Instant,
    total_processed: u64,
    total_batches: u64,
}

/// The sum of two counters, held at `u64::MAX`.
pub open spec fn capped_sum(count: u64, more: nat) -> u64 {
    if count + more > u64::MAX {
        u64::MAX
    } else {
        (count + more) as u64
    }
}

impl BatchProcessor {
    /// The requests that were submitted and not yet collected, in arrival order.
    pub closed spec fn ingress(self) -> Seq<BatchRequest> {
        self.ingress@
    }

    /// The requests that wait for their batch, in arrival order.
    pub closed spec fn pending(self) -> Seq<BatchRequest> {
        self.pending_requests@
    }

    /// Whether the dispatch loop is meant to run.
    pub closed spec fn is_running(self) -> bool {
        self.running
    }

    /// Whether a stop was asked for and no start followed it.
    pub closed spec fn is_stopped(self) -> bool {
        self.stopped
    }

    /// The batch policy of a model that brings none.
    pub closed spec fn default_policy(self) -> BatchConfig {
        self.default_policy
    }

    /// The ingress length above which intake refuses, if one is set.
    pub closed spec fn high_watermark(self) -> Option<usize> {
        self.high_watermark
    }

    /// The configured capacity of the registry.
    pub closed spec fn max_models(self) -> u32 {
        self.max_models
    }

    /// The number of requests that left in batches so far.
    pub closed spec fn processed(self) -> u64 {
        self.total_processed
    }

    /// The number of batches that left so far.
    pub closed spec fn batches_formed(self) -> u64 {
        self.total_batches
    }

    /// The invariant of the dispatcher: it is not both running and stopped.
    pub open spec fn wf(self) -> bool {
        !(self.is_running() && self.is_stopped())
    }

    /// Whether `self` and `other` differ at most in their queues.
    pub open spec fn same_settings(self, other: BatchProcessor) -> bool {
        &&& self.is_running() == other.is_running()
        &&& self.is_stopped() == other.is_stopped()
        &&& self.default_policy() == other.default_policy()
        &&& self.high_watermark() == other.high_watermark()
        &&& self.max_models() == other.max_models()
    }

    /// Whether intake refuses because the ingress queue stands above the
    /// high-watermark.
    pub open spec fn is_overloaded(self) -> bool {
        self.high_watermark() matches Some(limit) && self.ingress().len() > limit
    }

    /// Whether `e` is the error with which intake refuses a request now:
    /// the shutdown error after a stop, else the overload error while the
    /// ingress queue stands above the high-watermark.
    pub open spec fn is_refusal(self, e: UniModelError) -> bool {
        if self.is_stopped() {
            e is Internal && e.message() == "Batch processor is shut down"@
        } else {
            self.is_overloaded() && e.is_batch_fault(BatchFault::Overloaded) && e.message()
                == "Ingress queue is above its high-watermark"@
        }
    }

    /// How many requests in a row intake takes before it refuses one;
    /// `None` where it takes any number.
    pub open spec fn room(self) -> Option<nat> {
        if self.is_stopped() {
            Some(0nat)
        } else {
            match self.high_watermark() {
                None => None,
                Some(limit) => if self.ingress().len() > limit {
                    Some(0nat)
                } else {
                    Some((limit + 1 - self.ingress().len()) as nat)
                },
            }
        }
    }

    /// Whether intake takes `n` requests in a row.
    pub open spec fn takes(self, n: nat) -> bool {
        match self.room() {
            None => true,
            Some(k) => n <= k,
        }
    }

    /// A dispatcher for a valid configuration: idle, with empty queues, no
    /// high-watermark, and the configuration's batch policy as the default.
    /// An invalid configuration is refused with its first fault.
    pub fn new(config: &Config) -> (r: Result<Self, UniModelError>)
        ensures
            match r {
                Ok(processor) => {
                    &&& config.valid()
                    &&& processor.wf()
                    &&& processor.ingress().len() == 0
                    &&& processor.pending().len() == 0
                    &&& !processor.is_running()
                    &&& !processor.is_stopped()
                    &&& processor.default_policy() == config.engine.batch_config
                    &&& processor.max_models() == config.engine.max_models
                    &&& processor.high_watermark() is None
                    &&& processor.processed() == 0
                    &&& processor.batches_formed() == 0
                },
                Err(e) => e is Config && config.fault() == Some(e.message()),
            },
    {
        match config.validate() {
            Err(e) => Err(e),
            Ok(()) => Ok(
                BatchProcessor {
                    default_policy: config.engine.batch_config,
                    max_models: config.engine.max_models,
                    high_watermark: None,
                    ingress: VecDeque::new(),
                    pending_requests: VecDeque::new(),
                    running: false,
                    stopped: false,
                    origin: monotonic_now(),
                    total_processed: 0,
                    total_batches: 0,
                },
            ),
        }
    }

    /// Sets or lifts the ingress length above which intake refuses.
    pub fn set_high_watermark(&mut self, limit: Option<usize>)
        ensures
            final(self).high_watermark() == limit,
            final(self).ingress() == old(self).ingress(),
            final(self).pending() == old(self).pending(),
            final(self).is_running() == old(self).is_running(),
            final(self).is_stopped() == old(self).is_stopped(),
            final(self).default_policy() == old(self).default_policy(),
            final(self).max_models() == old(self).max_models(),
            final(self).processed() == old(self).processed(),
            final(self).batches_formed() == old(self).batches_formed(),
    {
        self.high_watermark = limit;
    }

    /// Starts the dispatcher. A dispatcher that runs already refuses, and
    /// nothing changes.
    pub fn start(&mut self) -> (r: Result<(), UniModelError>)
        ensures
            match r {
                Ok(()) => !old(self).is_running() && final(self).is_running() && !final(self).is_stopped(),
                Err(e) => old(self).is_running() && final(self).is_running()
                    && final(self).is_stopped() == old(self).is_stopped() && e is Internal
                    && e.message() == "BatchProcessor already running"@,
            },
            final(self).ingress() == old(self).ingress(),
            final(self).pending() == old(self).pending(),
            final(self).default_policy() == old(self).default_policy(),
            final(self).high_watermark() == old(self).high_watermark(),
            final(self).max_models() == old(self).max_models(),
            final(self).processed() == old(self).processed(),
            final(self).batches_formed() == old(self).batches_formed(),
            old(self).wf() ==> final(self).wf(),
    {
        if self.running {
            return Err(UniModelError::internal("BatchProcessor already running"));
        }
        self.running = true;
        self.stopped = false;
        Ok(())
    }

    /// Stops the dispatcher: it no longer runs, intake refuses from now on,
    /// and the next tick drains every group.
    pub fn stop(&mut self) -> (r: Result<(), UniModelError>)
        ensures
            r is Ok,
            !final(self).is_running(),
            final(self).is_stopped(),
            final(self).ingress() == old(self).ingress(),
            final(self).pending() == old(self).pending(),
            final(self).default_policy() == old(self).default_policy(),
            final(self).high_watermark() == old(self).high_watermark(),
            final(self).max_models() == old(self).max_models(),
            final(self).processed() == old(self).processed(),
            final(self).batches_formed() == old(self).batches_formed(),
            final(self).wf(),
    {
        self.running = false;
        self.stopped = true;
        Ok(())
    }

    /// The time on the dispatcher's clock, in milliseconds since the
    /// dispatcher was made.
    pub fn clock_ms(&self) -> u64 {
        millis_since(&self.origin)
    }

    /// Takes a request into the ingress queue.
    ///
    /// After a stop intake refuses with the shutdown error; above the
    /// high-watermark it refuses as overloaded. A refusal changes nothing
    /// and the request is dropped.
    pub fn enqueue(&mut self, request: BatchRequest) -> (r: Result<(), UniModelError>)
        ensures
            final(self).same_settings(*old(self)),
            final(self).pending() == old(self).pending(),
            final(self).processed() == old(self).processed(),
            final(self).batches_formed() == old(self).batches_formed(),
            match r {
                Ok(()) => !old(self).is_stopped() && !old(self).is_overloaded()
                    && final(self).ingress() == old(self).ingress().push(request),
                Err(e) => final(self).ingress() == old(self).ingress() && old(self).is_refusal(e),
            },
    {
        if self.stopped {
            return Err(UniModelError::internal("Batch processor is shut down"));
        }
        match self.high_watermark {
            Some(limit) => {
                if self.ingress.len() > limit {
                    return Err(
                        UniModelError::overloaded("Ingress queue is above its high-watermark"),
                    );
                }
            },
            None => {},
        }
        self.ingress.push_back(request);
        Ok(())
    }

    /// Submits a request for `model_id`: gives it a fresh id, stamps it with
    /// the dispatcher's clock and takes it into the ingress queue. The id
    /// comes back; the answer follows from a later tick.
    ///
    /// Intake succeeds unless the dispatcher was stopped or is overloaded.
    pub fn submit_request(
        &mut self,
        model_id: ModelId,
        input: InputData,
        parameters: PredictionParameters,
    ) -> (r: Result<RequestId, UniModelError>)
        ensures
            final(self).same_settings(*old(self)),
            final(self).pending() == old(self).pending(),
            final(self).processed() == old(self).processed(),
            final(self).batches_formed() == old(self).batches_formed(),
            r is Ok <==> !old(self).is_stopped() && !old(self).is_overloaded(),
            match r {
                Ok(id) => {
                    &&& id@.len() == 36
                    &&& final(self).ingress().len() == old(self).ingress().len() + 1
                    &&& final(self).ingress().drop_last() == old(self).ingress()
                    &&& final(self).ingress().last().request_id@ == id@
                    &&& final(self).ingress().last().model_id == model_id
                    &&& final(self).ingress().last().input == input
                    &&& final(self).ingress().last().parameters == parameters
                },
                Err(e) => final(self).ingress() == old(self).ingress() && old(self).is_refusal(e),
            },
    {
        let request_id = new_request_id();
        let id = request_id.clone();
        let submitted_at = self.clock_ms();
        let request = BatchRequest { request_id, model_id, input, parameters, submitted_at };
        let ghost before = self.ingress@;
        match self.enqueue(request) {
            Ok(()) => {
                proof {
                    assert(self.ingress@.drop_last() =~= before);
                }
                Ok(id)
            },
            Err(e) => Err(e),
        }
    }

    /// Whether the ingress queue is long enough to be worth a warning: above
    /// ten times the batch size times the capacity of the registry.
    pub fn ingress_backlog_warning(&self) -> (warn: bool)
        ensures
            warn == (self.ingress().len() > 10 * self.default_policy().max_batch_size
                * self.max_models()),
    {
        let size = self.default_policy.max_batch_size as u128;
        let models = self.max_models as u128;
        assert(size * models <= 0xFFFF_FFFF * 0xFFFF_FFFF) by (nonlinear_arith)
            requires
                size <= 0xFFFF_FFFF,
                models <= 0xFFFF_FFFF,
        ;
        let product: u128 = size * models;
        let bound: u128 = 10u128 * product;
        assert(bound == 10 * self.default_policy.max_batch_size * self.max_models) by (nonlinear_arith)
            requires
                bound == 10 * (size * models),
                size == self.default_policy.max_batch_size,
                models == self.max_models,
        ;
        (self.ingress.len() as u128) > bound
    }

    /// Moves every submitted request into the pending buffer, behind those
    /// that wait there, in arrival order.
    pub fn collect_new_requests(&mut self)
        ensures
            final(self).same_settings(*old(self)),
            final(self).pending() == old(self).pending() + old(self).ingress(),
            final(self).ingress().len() == 0,
            final(self).processed() == old(self).processed(),
            final(self).batches_formed() == old(self).batches_formed(),
    {
        let ghost waiting = self.pending_requests@;
        let ghost arrived = self.ingress@;
        while self.ingress.len() > 0
            invariant
                self.same_settings(*old(self)),
                self.total_processed == old(self).total_processed,
                self.total_batches == old(self).total_batches,
                self.pending_requests@ + self.ingress@ == waiting + arrived,
            decreases self.ingress@.len(),
        {
            let ghost rest = self.ingress@;
            let ghost done = self.pending_requests@;
            let next = self.ingress.pop_front();
            match next {
                Some(request) => {
                    self.pending_requests.push_back(request);
                    proof {
                        assert(self.pending_requests@ + self.ingress@ =~= done + rest);
                    }
                },
                None => {
                    assert(false);
                },
            }
        }
        proof {
            assert(self.pending_requests@ + self.ingress@ =~= self.pending_requests@);
        }
    }

    /// One pass over the pending buffer at time `now`.
    ///
    /// Every request that waited longer than the queue deadline of its model
    /// is given up. The others are grouped by model. A group leaves when it
    /// holds at least the model's batch size, when one of its requests has
    /// waited the full deadline, or when the dispatcher was stopped; it
    /// leaves as batches of at most the batch size, in arrival order. The
    /// requests of the other groups stay pending, in arrival order.
    pub fn process_batches_at(&mut self, models: &ModelManager, now: u64) -> (plan: BatchPlan)
        ensures
            final(self).same_settings(*old(self)),
            final(self).ingress() == old(self).ingress(),
            is_pass(
                old(self).pending(),
                policy_table(*models, old(self).default_policy()),
                old(self).is_stopped(),
                now,
                plan,
                final(self).pending(),
            ),
            final(self).processed() == capped_sum(
                old(self).processed(),
                flushed_count(
                    old(self).pending(),
                    policy_table(*models, old(self).default_policy()),
                    old(self).is_stopped(),
                    now,
                ),
            ),
            final(self).batches_formed() == capped_sum(
                old(self).batches_formed(),
                plan.batches@.len(),
            ),
    {
        let fallback = self.default_policy;
        let draining = self.stopped;
        let mut pending: VecDeque<BatchRequest> = VecDeque::new();
        std::mem::swap(&mut pending, &mut self.pending_requests);
        let gone = expired_flags(&pending, models, fallback, now);
        let (expired, live) = split(
            pending,
            &gone,
            Ghost(expired_test(now, policy_table(*models, fallback))),
        );
        let due = due_flags(&live, models, fallback, now, draining);
        let (flushed, kept) = split(
            live,
            &due,
            Ghost(due_test(live@, now, policy_table(*models, fallback), draining)),
        );
        let leaving = flushed.len();
        let batches = form_batches(flushed, models, fallback, now);
        self.pending_requests = kept;
        self.total_processed = add_capped(self.total_processed, leaving);
        self.total_batches = add_capped(self.total_batches, batches.len());
        BatchPlan { expired: into_vec(expired), batches }
    }

    /// One pass over the pending buffer at the time of the dispatcher's clock.
    pub fn process_batches(&mut self, models: &ModelManager) -> (plan: BatchPlan)
        ensures
            final(self).same_settings(*old(self)),
            final(self).ingress() == old(self).ingress(),
            final(self).batches_formed() == capped_sum(
                old(self).batches_formed(),
                plan.batches@.len(),
            ),
            exists|now: u64|
                #[trigger] is_pass(
                    old(self).pending(),
                    policy_table(*models, old(self).default_policy()),
                    old(self).is_stopped(),
                    now,
                    plan,
                    final(self).pending(),
                ) && final(self).processed() == capped_sum(
                    old(self).processed(),
                    flushed_count(
                        old(self).pending(),
                        policy_table(*models, old(self).default_policy()),
                        old(self).is_stopped(),
                        now,
                    ),
                ),
    {
        let now = self.clock_ms();
        self.process_batches_at(models, now)
    }

    /// One tick at time `now`: collects what was submitted, then makes one
    /// pass over the pending buffer.
    pub fn tick_at(&mut self, models: &ModelManager, now: u64) -> (plan: BatchPlan)
        ensures
            final(self).same_settings(*old(self)),
            final(self).ingress().len() == 0,
            is_pass(
                old(self).pending() + old(self).ingress(),
                policy_table(*models, old(self).default_policy()),
                old(self).is_stopped(),
                now,
                plan,
                final(self).pending(),
            ),
            final(self).processed() == capped_sum(
                old(self).processed(),
                flushed_count(
                    old(self).pending() + old(self).ingress(),
                    policy_table(*models, old(self).default_policy()),
                    old(self).is_stopped(),
                    now,
                ),
            ),
            final(self).batches_formed() == capped_sum(
                old(self).batches_formed(),
                plan.batches@.len(),
            ),
    {
        self.collect_new_requests();
        self.process_batches_at(models, now)
    }

    /// One tick at the time of the dispatcher's clock.
    pub fn tick(&mut self, models: &ModelManager) -> (plan: BatchPlan)
        ensures
            final(self).same_settings(*old(self)),
            final(self).ingress().len() == 0,
            final(self).batches_formed() == capped_sum(
                old(self).batches_formed(),
                plan.batches@.len(),
            ),
            exists|now: u64|
                #[trigger] is_pass(
                    old(self).pending() + old(self).ingress(),
                    policy_table(*models, old(self).default_policy()),
                    old(self).is_stopped(),
                    now,
                    plan,
                    final(self).pending(),
                ) && final(self).processed() == capped_sum(
                    old(self).processed(),
                    flushed_count(
                        old(self).pending() + old(self).ingress(),
                        policy_table(*models, old(self).default_policy()),
                        old(self).is_stopped(),
                        now,
                    ),
                ),
    {
        let now = self.clock_ms();
        self.tick_at(models, now)
    }

    /// Cuts the requests of one model into batches of at most
    /// `max_batch_size` requests, in arrival order. A batch size of zero
    /// counts as one.
    pub fn process_model_group(requests: Vec<BatchRequest>, max_batch_size: u32, now: u64) -> (batches:
        Vec<BatchGroup>)
        ensures
            requests_of(batches@) == chunks(
                requests@,
                if max_batch_size == 0 {
                    1
                } else {
                    max_batch_size as nat
                },
            ),
            forall|i: int| 0 <= i < batches@.len() ==> is_closed_batch(#[trigger] batches@[i], now),
    {
        let size: usize = if max_batch_size == 0 {
            1
        } else {
            max_batch_size as usize
        };
        let mut batches: Vec<BatchGroup> = Vec::new();
        proof {
            assert(requests_of(batches@) =~= Seq::<Seq<BatchRequest>>::empty());
        }
        let ghost none = requests_of(batches@);
        cut_into_batches(into_queue(requests), size, now, &mut batches);
        proof {
            assert(none + chunks(requests@, size as nat) =~= chunks(requests@, size as nat));
        }
        batches
    }

    /// A reading of the dispatcher.
    pub fn get_batch_stats(&self) -> (stats: BatchStats)
        ensures
            stats.pending_requests == self.pending().len(),
            stats.is_running == self.is_running(),
            stats.total_processed == self.processed(),
            stats.avg_batch_size_milli == if self.batches_formed() == 0 {
                0
            } else {
                capped_sum(0, (self.processed() * 1000 / (self.batches_formed() as int)) as nat)
            },
    {
        let avg: u64 = if self.total_batches == 0 {
            0
        } else {
            let scaled: u128 = (self.total_processed as u128) * 1000u128 / (self.total_batches as u128);
            if scaled > u64::MAX as u128 {
                u64::MAX
            } else {
                scaled as u64
            }
        };
        BatchStats {
            pending_requests: self.pending_requests.len(),
            is_running: self.running,
            total_processed: self.total_processed,
            avg_batch_size_milli: avg,
        }
    }
}

/// Facts about a response that do not depend on the request.
#[derive(Debug, Clone, PartialEq)]
pub struct ResponseMetadata {
    pub model_version: String,
    pub backend: String,
    pub custom_metadata: HashMap<String, serde_json::Value>,
}

/// The answer to one request.
#[derive(Debug, Clone, PartialEq)]
pub struct PredictionResponse {
    pub request_id: RequestId,
    pub model_id: ModelId,
    pub output: OutputData,
    pub metadata: ResponseMetadata,
    pub metrics: PerformanceMetrics,
    /// Wall-clock time at which the answer was complete.
    pub timestamp: Timestamp,
}

/// What the caller measured while it ran a batch through a backend.
#[derive(Debug, Clone, PartialEq)]
pub struct ExecutionReport {
    /// When the backend call began, on the dispatcher's clock.
    pub started_at: u64,
    /// When the backend call ended, on the dispatcher's clock.
    pub finished_at: u64,
    /// Wall-clock time at which the backend call ended.
    pub completed_at: Timestamp,
    pub preprocessing_ms: u64,
    pub postprocessing_ms: u64,
    pub model_version: String,
    pub backend: String,
    /// Share of the accelerator in use, as the bit pattern of a single-precision number.
    pub gpu_utilization_bits: Option<u32>,
    pub memory_usage_mb: Option<u64>,
}

/// What the waiter of one request receives.
#[derive(Debug, PartialEq)]
pub struct Delivery {
    /// The request whose waiter receives the result.
    pub request_id: RequestId,
    pub result: Result<PredictionResponse, UniModelError>,
}

/// How the wait for an answer ended.
#[derive(Debug)]
pub enum WaitOutcome {
    /// The dispatcher delivered a result.
    Answered(Result<PredictionResponse, UniModelError>),
    /// The dispatcher dropped the request without a result.
    Closed,
    /// The caller's timeout ran out first.
    TimedOut,
}

/// The time a request spent queued before its batch started.
pub open spec fn queue_wait(request: BatchRequest, report: ExecutionReport) -> u64 {
    if report.started_at >= request.submitted_at {
        (report.started_at - request.submitted_at) as u64
    } else {
        0
    }
}

/// The time the backend took for the batch.
pub open spec fn inference_time(report: ExecutionReport) -> u64 {
    if report.finished_at >= report.started_at {
        (report.finished_at - report.started_at) as u64
    } else {
        0
    }
}

/// The size of a batch as a response reports it.
pub open spec fn reported_size(len: nat) -> u32 {
    if len > u32::MAX {
        u32::MAX
    } else {
        len as u32
    }
}

/// The wall-clock time `total_ms` milliseconds before `completed_at`.
pub open spec fn started_before(completed_at: Timestamp, total_ms: u64) -> Timestamp {
    if completed_at - total_ms < i64::MIN {
        i64::MIN
    } else {
        (completed_at - total_ms) as i64
    }
}

/// The metrics of a request that was answered in a batch of `batch_len`
/// requests. The total latency is the queue wait and the inference time
/// together.
pub open spec fn metrics_for(
    request: BatchRequest,
    batch_len: nat,
    report: ExecutionReport,
) -> PerformanceMetrics {
    let total = (queue_wait(request, report) + inference_time(report)) as u64;
    PerformanceMetrics {
        request_id: request.request_id,
        start_time: started_before(report.completed_at, total),
        end_time: report.completed_at,
        total_latency_ms: total,
        inference_latency_ms: inference_time(report),
        queue_wait_ms: queue_wait(request, report),
        preprocessing_ms: report.preprocessing_ms,
        postprocessing_ms: report.postprocessing_ms,
        tokens_generated: None,
        tokens_input: None,
        throughput_bits: None,
        batch_size: reported_size(batch_len),
        gpu_utilization_bits: report.gpu_utilization_bits,
        memory_usage_mb: report.memory_usage_mb,
    }
}

/// Whether `response` answers `request` of a batch for `model_id`, apart
/// from its output.
pub open spec fn is_answer(
    response: PredictionResponse,
    request: BatchRequest,
    model_id: ModelId,
    batch_len: nat,
    report: ExecutionReport,
) -> bool {
    &&& response.request_id == request.request_id
    &&& response.model_id == model_id
    &&& response.metadata.model_version == report.model_version
    &&& response.metadata.backend == report.backend
    &&& response.metadata.custom_metadata@ == Map::<String, serde_json::Value>::empty()
    &&& response.metrics == metrics_for(request, batch_len, report)
    &&& response.timestamp == report.completed_at
}

/// The message under which a failed backend call is reported: the message
/// of a backend error, the full text of any other error.
pub open spec fn failure_message(e: UniModelError) -> Seq<char> {
    if e is Plugin {
        e.message()
    } else {
        e.text()
    }
}

/// The message of the backend error that every request of a batch of
/// `batch_len` requests receives for the backend's `outcome`; `None` where
/// the batch is answered.
///
/// A batch fails as a whole: where the backend failed, and where it gave
/// another number of outputs than it took inputs.
pub open spec fn batch_failure(
    outcome: Result<Vec<OutputData>, UniModelError>,
    batch_len: nat,
) -> Option<Seq<char>> {
    match outcome {
        Ok(outputs) => if outputs@.len() == batch_len {
            None
        } else {
            Some("Backend returned a wrong number of outputs"@)
        },
        Err(e) => Some(failure_message(e)),
    }
}

/// Whether `delivery` is what the waiter of the request at place `i` of a
/// batch receives for the backend's `outcome`.
///
/// Where the batch is answered it is the request's answer with the output
/// at place `i`. Where the batch failed it is a backend error with the
/// failure's message, the same for every request of the batch.
pub open spec fn is_delivery(
    delivery: Delivery,
    request: BatchRequest,
    i: int,
    model_id: ModelId,
    batch_len: nat,
    outcome: Result<Vec<OutputData>, UniModelError>,
    report: ExecutionReport,
) -> bool {
    &&& delivery.request_id == request.request_id
    &&& match batch_failure(outcome, batch_len) {
        None => {
            &&& delivery.result matches Ok(response)
            &&& is_answer(response, request, model_id, batch_len, report)
            &&& response.output == outcome->Ok_0@[i]
        },
        Some(message) => {
            &&& delivery.result matches Err(failure)
            &&& failure is Plugin
            &&& failure.message() == message
        },
    }
}

/// What the built-in backend answers to a payload: a text comes back behind
/// the words `Processed: `, everything else comes back as it is.
pub open spec fn echo_payload(payload: PayloadView) -> PayloadView {
    match payload {
        PayloadView::Text(text) => PayloadView::Text("Processed: "@ + text),
        other => other,
    }
}

/// Whether `delivery` is what the waiter of `request` receives from the
/// built-in backend for a batch of `batch_len` requests for `model_id`: the
/// answer to its own input, under its own id, with the batch's model id and
/// length, and with the timings of the built-in backend's report.
pub open spec fn is_echo_delivery(
    delivery: Delivery,
    request: BatchRequest,
    model_id: ModelId,
    batch_len: nat,
    started_at: u64,
    finished_at: u64,
    completed_at: Timestamp,
) -> bool {
    &&& delivery.request_id == request.request_id
    &&& delivery.result matches Ok(response)
    &&& response.output@ == echo_payload(request.input@)
    &&& response.request_id == request.request_id
    &&& response.model_id == model_id
    &&& response.metrics.batch_size == reported_size(batch_len)
    &&& exists|report: ExecutionReport|
        ExecutionReport::is_simulated(report, started_at, finished_at, completed_at)
            && #[trigger] is_answer(response, request, model_id, batch_len, report)
}

/// An output with the content of an input.
pub fn mirror(input: &InputData) -> (output: OutputData)
    ensures
        output@ == input@,
        input_wf(*input) ==> output_wf(output),
    decreases input,
{
    match input {
        InputData::Text(text) => OutputData::Text(text.clone()),
        InputData::Binary(bytes) => OutputData::Binary(bytes.clone()),
        InputData::Json(value) => OutputData::Json(value.clone()),
        InputData::Multimodal(parts) => {
            let mut out: Vec<NamedOutput> = Vec::new();
            let mut k: usize = 0;
            while k < parts.len()
                invariant
                    0 <= k <= parts@.len(),
                    input->Multimodal_0 == *parts,
                    *input is Multimodal,
                    out@.len() == k,
                    forall|j: int|
                        0 <= j < k ==> (#[trigger] out@[j]).name@ == parts@[j].name@
                            && out@[j].value@ == parts@[j].value@,
                    forall|j: int|
                        0 <= j < k ==> (input_wf(parts@[j].value) ==> output_wf(
                            (#[trigger] out@[j]).value,
                        )),
                decreases parts@.len() - k,
            {
                let part = &parts[k];
                assert(decreases_to!(input => part.value)) by {
                    assert(decreases_to!(*input => input->Multimodal_0));
                    assert(decreases_to!(*parts => parts@[k as int]));
                }
                out.push(NamedOutput { name: part.name.clone(), value: mirror(&part.value) });
                k = k + 1;
            }
            let output = OutputData::Multimodal(out);
            assert(output@->Multimodal_0 =~= input@->Multimodal_0);
            proof {
                if input_wf(*input) {
                    assert forall|a: int, b: int| 0 <= a < b < out@.len() implies (
                    #[trigger] out@[a]).name@ != (#[trigger] out@[b]).name@ by {
                        assert(parts@[a].name@ != parts@[b].name@);
                    }
                    assert forall|j: int| 0 <= j < out@.len() implies output_wf(
                        (#[trigger] out@[j]).value,
                    ) by {
                        assert(input_wf(parts@[j].value));
                    }
                }
            }
            output
        },
    }
}

impl ExecutionReport {
    /// Whether `report` is the report of the built-in backend for a call
    /// from `started_at` to `finished_at` that was complete at `completed_at`.
    pub open spec fn is_simulated(
        report: ExecutionReport,
        started_at: u64,
        finished_at: u64,
        completed_at: Timestamp,
    ) -> bool {
        &&& report.started_at == started_at
        &&& report.finished_at == finished_at
        &&& report.completed_at == completed_at
        &&& report.preprocessing_ms == 5
        &&& report.postprocessing_ms == 5
        &&& report.model_version@ == "1.0.0"@
        &&& report.backend@ == "simulated"@
        &&& report.gpu_utilization_bits == Some(0x3F40_0000u32)
        &&& report.memory_usage_mb == Some(1024u64)
    }

    /// The report of the built-in backend: five milliseconds each before
    /// and after the call, three quarters of the accelerator, 1024 megabytes.
    pub fn simulated(started_at: u64, finished_at: u64, completed_at: Timestamp) -> (report: Self)
        ensures
            ExecutionReport::is_simulated(report, started_at, finished_at, completed_at),
    {
        ExecutionReport {
            started_at,
            finished_at,
            completed_at,
            preprocessing_ms: 5,
            postprocessing_ms: 5,
            model_version: "1.0.0".to_owned(),
            backend: "simulated".to_owned(),
            gpu_utilization_bits: Some(0x3F40_0000),
            memory_usage_mb: Some(1024),
        }
    }
}

impl BatchGroup {
    /// The inputs of the batch, in arrival order: what goes to the backend.
    pub fn inputs(&self) -> (inputs: Vec<&InputData>)
        ensures
            inputs@.len() == self.requests@.len(),
            forall|i: int| 0 <= i < inputs@.len() ==> *(#[trigger] inputs@[i]) == self.requests@[i].input,
    {
        let mut inputs: Vec<&InputData> = Vec::new();
        let mut i: usize = 0;
        while i < self.requests.len()
            invariant
                0 <= i <= self.requests@.len(),
                inputs@.len() == i,
                forall|j: int| 0 <= j < i ==> *(#[trigger] inputs@[j]) == self.requests@[j].input,
            decreases self.requests@.len() - i,
        {
            inputs.push(&self.requests[i].input);
            i = i + 1;
        }
        inputs
    }

    /// The parameters of the requests of the batch, in arrival order.
    pub fn parameters(&self) -> (parameters: Vec<&PredictionParameters>)
        ensures
            parameters@.len() == self.requests@.len(),
            forall|i: int|
                0 <= i < parameters@.len() ==> *(#[trigger] parameters@[i])
                    == self.requests@[i].parameters,
    {
        let mut parameters: Vec<&PredictionParameters> = Vec::new();
        let mut i: usize = 0;
        while i < self.requests.len()
            invariant
                0 <= i <= self.requests@.len(),
                parameters@.len() == i,
                forall|j: int|
                    0 <= j < i ==> *(#[trigger] parameters@[j]) == self.requests@[j].parameters,
            decreases self.requests@.len() - i,
        {
            parameters.push(&self.requests[i].parameters);
            i = i + 1;
        }
        parameters
    }
}

/// The metrics of one answered request.
fn measure(request_id: RequestId, submitted_at: u64, batch_len: usize, report: &ExecutionReport) -> (metrics:
    PerformanceMetrics)
    ensures
        forall|request: BatchRequest|
            request.request_id == request_id && request.submitted_at == submitted_at
                ==> metrics == #[trigger] metrics_for(request, batch_len as nat, *report),
{
    let queue_wait_ms: u64 = if report.started_at >= submitted_at {
        report.started_at - submitted_at
    } else {
        0
    };
    let inference_latency_ms: u64 = if report.finished_at >= report.started_at {
        report.finished_at - report.started_at
    } else {
        0
    };
    let total_latency_ms: u64 = queue_wait_ms + inference_latency_ms;
    let begun: i128 = (report.completed_at as i128) - (total_latency_ms as i128);
    let start_time: Timestamp = if begun < i64::MIN as i128 {
        i64::MIN
    } else {
        begun as i64
    };
    let batch_size: u32 = if batch_len > u32::MAX as usize {
        u32::MAX
    } else {
        batch_len as u32
    };
    PerformanceMetrics {
        request_id,
        start_time,
        end_time: report.completed_at,
        total_latency_ms,
        inference_latency_ms,
        queue_wait_ms,
        preprocessing_ms: report.preprocessing_ms,
        postprocessing_ms: report.postprocessing_ms,
        tokens_generated: None,
        tokens_input: None,
        throughput_bits: None,
        batch_size,
        gpu_utilization_bits: report.gpu_utilization_bits,
        memory_usage_mb: report.memory_usage_mb,
    }
}

impl BatchProcessor {
    /// What the built-in backend answers to one input.
    pub fn echo(input: &InputData) -> (output: OutputData)
        ensures
            output@ == echo_payload(input@),
            input_wf(*input) ==> output_wf(output),
    {
        match input {
            InputData::Text(text) => OutputData::Text(
                "Processed: ".to_owned().concat(text.as_str()),
            ),
            _ => mirror(input),
        }
    }

    /// The built-in backend: it answers every input in its place and never
    /// fails. A text comes back behind the words `Processed: `, every other
    /// input comes back as it is.
    pub fn simulate_batch_inference(inputs: &Vec<&InputData>) -> (r: Result<
        Vec<OutputData>,
        UniModelError,
    >)
        ensures
            r matches Ok(outputs) && outputs@.len() == inputs@.len() && forall|i: int|
                0 <= i < outputs@.len() ==> (#[trigger] outputs@[i])@ == echo_payload((*inputs@[i])@),
    {
        let mut outputs: Vec<OutputData> = Vec::new();
        let mut i: usize = 0;
        while i < inputs.len()
            invariant
                0 <= i <= inputs@.len(),
                outputs@.len() == i,
                forall|j: int|
                    0 <= j < i ==> (#[trigger] outputs@[j])@ == echo_payload((*inputs@[j])@),
            decreases inputs@.len() - i,
        {
            outputs.push(BatchProcessor::echo(inputs[i]));
            i = i + 1;
        }
        Ok(outputs)
    }

    /// Turns the backend's outcome for a batch into one delivery per
    /// request, in the order of the batch.
    ///
    /// The output at place `i` goes to the waiter of the request at place
    /// `i`, with the metrics of that request. A failure of the backend goes
    /// to every waiter of the batch as a backend error, and so does an
    /// answer with another number of outputs than the batch has requests.
    pub fn complete_batch(
        batch: BatchGroup,
        outcome: Result<Vec<OutputData>, UniModelError>,
        report: &ExecutionReport,
    ) -> (deliveries: Vec<Delivery>)
        ensures
            deliveries@.len() == batch.requests@.len(),
            forall|i: int|
                0 <= i < deliveries@.len() ==> is_delivery(
                    #[trigger] deliveries@[i],
                    batch.requests@[i],
                    i,
                    batch.model_id,
                    batch.requests@.len(),
                    outcome,
                    *report,
                ),
    {
        let ghost all = batch.requests@;
        let batch_len = batch.requests.len();
        let model_id = batch.model_id;
        let mut requests = into_queue(batch.requests);
        let mut deliveries: Vec<Delivery> = Vec::new();
        let failed: Option<String> = match &outcome {
            Ok(outputs) => if outputs.len() == batch_len {
                None
            } else {
                Some("Backend returned a wrong number of outputs".to_owned())
            },
            Err(e) => Some(
                match e {
                    UniModelError::Plugin(m) => m.clone(),
                    _ => e.to_string(),
                },
            ),
        };
        match failed {
            Some(message) => {
                let mut i: usize = 0;
                while i < batch_len
                    invariant
                        0 <= i <= batch_len == all.len(),
                        requests@ == all.skip(i as int),
                        deliveries@.len() == i,
                        batch_failure(outcome, all.len()) == Some(message@),
                        forall|j: int|
                            0 <= j < i ==> is_delivery(
                                #[trigger] deliveries@[j],
                                all[j],
                                j,
                                model_id,
                                all.len(),
                                outcome,
                                *report,
                            ),
                    decreases batch_len - i,
                {
                    let next = requests.pop_front();
                    match next {
                        Some(request) => {
                            proof {
                                assert(request == all[i as int]);
                                assert(all.skip(i as int).subrange(
                                    1,
                                    all.skip(i as int).len() as int,
                                ) =~= all.skip(i as int + 1));
                            }
                            deliveries.push(
                                Delivery {
                                    request_id: request.request_id,
                                    result: Err(UniModelError::Plugin(message.clone())),
                                },
                            );
                        },
                        None => {
                            assert(false);
                        },
                    }
                    i = i + 1;
                }
            },
            None => {
                let outputs = match outcome {
                    Ok(outputs) => outputs,
                    Err(_) => {
                        assert(false);
                        Vec::new()
                    },
                };
                let ghost given = outputs@;
                let mut outputs = into_queue(outputs);
                let mut i: usize = 0;
                while i < batch_len
                    invariant
                        0 <= i <= batch_len == all.len(),
                        given.len() == all.len(),
                        requests@ == all.skip(i as int),
                        outputs@ == given.skip(i as int),
                        deliveries@.len() == i,
                        outcome matches Ok(o) && o@ == given,
                        forall|j: int|
                            0 <= j < i ==> is_delivery(
                                #[trigger] deliveries@[j],
                                all[j],
                                j,
                                model_id,
                                all.len(),
                                outcome,
                                *report,
                            ),
                    decreases batch_len - i,
                {
                    let next = requests.pop_front();
                    let answer = outputs.pop_front();
                    match (next, answer) {
                        (Some(request), Some(output)) => {
                            proof {
                                assert(request == all[i as int]);
                                assert(output == given[i as int]);
                                assert(all.skip(i as int).subrange(
                                    1,
                                    all.skip(i as int).len() as int,
                                ) =~= all.skip(i as int + 1));
                                assert(given.skip(i as int).subrange(
                                    1,
                                    given.skip(i as int).len() as int,
                                ) =~= given.skip(i as int + 1));
                            }
                            let request_id = request.request_id;
                            let submitted_at = request.submitted_at;
                            let metrics = measure(request_id.clone(), submitted_at, batch_len, report);
                            let response = PredictionResponse {
                                request_id: request_id.clone(),
                                model_id: model_id.clone(),
                                output,
                                metadata: ResponseMetadata {
                                    model_version: report.model_version.clone(),
                                    backend: report.backend.clone(),
                                    custom_metadata: HashMap::new(),
                                },
                                metrics,
                                timestamp: report.completed_at,
                            };
                            proof {
                                assert(metrics == metrics_for(all[i as int], all.len(), *report));
                            }
                            deliveries.push(Delivery { request_id, result: Ok(response) });
                        },
                        _ => {
                            assert(false);
                        },
                    }
                    i = i + 1;
                }
            },
        }
        deliveries
    }

    /// Runs a batch through the built-in backend and turns the outcome into
    /// one delivery per request: every request is answered, a text behind
    /// the words `Processed: `, every other input as it came.
    pub fn execute_batch(
        batch: BatchGroup,
        started_at: u64,
        finished_at: u64,
        completed_at: Timestamp,
    ) -> (deliveries: Vec<Delivery>)
        ensures
            deliveries@.len() == batch.requests@.len(),
            forall|i: int|
                0 <= i < deliveries@.len() ==> is_echo_delivery(
                    #[trigger] deliveries@[i],
                    batch.requests@[i],
                    batch.model_id,
                    batch.requests@.len(),
                    started_at,
                    finished_at,
                    completed_at,
                ),
    {
        let report = ExecutionReport::simulated(started_at, finished_at, completed_at);
        let outcome = {
            let inputs = batch.inputs();
            BatchProcessor::simulate_batch_inference(&inputs)
        };
        let ghost given = outcome->Ok_0@;
        let deliveries = BatchProcessor::complete_batch(batch, outcome, &report);
        proof {
            assert forall|i: int| 0 <= i < deliveries@.len() implies is_echo_delivery(
                #[trigger] deliveries@[i],
                batch.requests@[i],
                batch.model_id,
                batch.requests@.len(),
                started_at,
                finished_at,
                completed_at,
            ) by {
                let response = deliveries@[i].result->Ok_0;
                assert(response.output == given[i]);
                assert(is_answer(
                    response,
                    batch.requests@[i],
                    batch.model_id,
                    batch.requests@.len(),
                    report,
                ));
            }
        }
        deliveries
    }

    /// Gives up the expired requests: one delivery per request, in order,
    /// each with the expiry error.
    pub fn expire_requests(expired: Vec<BatchRequest>) -> (deliveries: Vec<Delivery>)
        ensures
            deliveries@.len() == expired@.len(),
            forall|i: int|
                0 <= i < deliveries@.len() ==> {
                    let delivery = #[trigger] deliveries@[i];
                    &&& delivery.request_id == expired@[i].request_id
                    &&& delivery.result matches Err(e)
                    &&& e.is_batch_fault(BatchFault::Expired)
                    &&& e.message() == "Request expired"@
                },
    {
        let ghost all = expired@;
        let mut requests = into_queue(expired);
        let mut deliveries: Vec<Delivery> = Vec::new();
        while requests.len() > 0
            invariant
                deliveries@.len() + requests@.len() == all.len(),
                requests@ == all.skip(deliveries@.len() as int),
                forall|j: int|
                    0 <= j < deliveries@.len() ==> {
                        let delivery = #[trigger] deliveries@[j];
                        &&& delivery.request_id == all[j].request_id
                        &&& delivery.result matches Err(e)
                        &&& e.is_batch_fault(BatchFault::Expired)
                        &&& e.message() == "Request expired"@
                    },
            decreases requests@.len(),
        {
            let ghost i = deliveries@.len() as int;
            let next = requests.pop_front();
            match next {
                Some(request) => {
                    proof {
                        assert(request == all[i]);
                        assert(all.skip(i).subrange(1, all.skip(i).len() as int) =~= all.skip(i + 1));
                    }
                    deliveries.push(
                        Delivery {
                            request_id: request.request_id,
                            result: Err(UniModelError::expired("Request expired")),
                        },
                    );
                },
                None => {
                    assert(false);
                },
            }
        }
        deliveries
    }

    /// How long a caller waits for the answer to a request for `model_id`:
    /// the timeout of the model's batch policy, in milliseconds.
    pub fn request_timeout_ms(&self, models: &ModelManager, model_id: &ModelId) -> (ms: u64)
        ensures
            ms == models.policy_or(self.default_policy(), model_id@).timeout_ms,
    {
        models.batch_policy(model_id, self.default_policy).timeout_ms
    }

    /// What the caller of a request gets when its wait ends: the delivered
    /// result, or an internal error where the request was dropped or the
    /// timeout ran out.
    pub fn settle(outcome: WaitOutcome) -> (r: Result<PredictionResponse, UniModelError>)
        ensures
            match outcome {
                WaitOutcome::Answered(result) => r == result,
                WaitOutcome::Closed => r matches Err(e) && e is Internal && e.message()
                    == "Response channel closed"@,
                WaitOutcome::TimedOut => r matches Err(e) && e is Internal && e.message()
                    == "Request timeout"@,
            },
    {
        match outcome {
            WaitOutcome::Answered(result) => result,
            WaitOutcome::Closed => Err(UniModelError::internal("Response channel closed")),
            WaitOutcome::TimedOut => Err(UniModelError::internal("Request timeout")),
        }
    }
}

/// Adds to a counter and holds it at `u64::MAX`.
fn add_capped(count: u64, more: usize) -> (sum: u64)
    ensures
        sum == capped_sum(count, more as nat),
{
    let wide: u128 = (count as u128) + (more as u128);
    if wide > u64::MAX as u128 {
        u64::MAX
    } else {
        wide as u64
    }
}

} // verus!
