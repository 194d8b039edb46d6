//! What holds of every pass of the dispatcher: nothing is lost or doubled,
//! arrival order survives within a model, batches keep their bounds, and
//! the three ways in which a request leaves the pending buffer are told
//! apart by age and group size alone.

use crate::domain::service::batch_processor::{
    age, batches_of, chunk_size, chunks, deadline_reached, due_test, expired_of, expired_test,
    flushed_of, group_of, inference_time, is_due, kept_of, lemma_rest_is_shorter, live_of,
    metrics_for, negate, of_model, queue_wait, BatchRequest, ExecutionReport, PolicyTable,
};
use vstd::prelude::*;
use vstd::seq_lib::{
    lemma_flatten_concat, lemma_multiset_commutative, to_multiset_build, to_multiset_len,
};

verus! {

/// A test and its opposite split a sequence into two parts that together
/// hold every element as often as the sequence does.
pub proof fn lemma_split_keeps_all(items: Seq<BatchRequest>, test: spec_fn(BatchRequest) -> bool)
    ensures
        items.filter(test).to_multiset().add(items.filter(negate(test)).to_multiset())
            == items.to_multiset(),
    decreases items.len(),
{
    reveal(Seq::filter);
    if items.len() == 0 {
        assert(items.filter(test) =~= items);
        assert(items.filter(negate(test)) =~= items);
        items.to_multiset_ensures();
        assert(items.to_multiset().add(items.to_multiset()) =~= items.to_multiset());
    } else {
        let front = items.drop_last();
        let last = items.last();
        lemma_split_keeps_all(front, test);
        assert(items =~= front.push(last));
        to_multiset_build(front, last);
        if test(last) {
            assert(items.filter(test) =~= front.filter(test).push(last));
            assert(items.filter(negate(test)) =~= front.filter(negate(test)));
            to_multiset_build(front.filter(test), last);
        } else {
            assert(items.filter(test) =~= front.filter(test));
            assert(items.filter(negate(test)) =~= front.filter(negate(test)).push(last));
            to_multiset_build(front.filter(negate(test)), last);
        }
        assert(items.filter(test).to_multiset().add(items.filter(negate(test)).to_multiset())
            =~= items.to_multiset());
    }
}

/// The batches of a group, laid end to end, are the group.
pub proof fn lemma_chunks_rejoin(group: Seq<BatchRequest>, size: nat)
    ensures
        chunks(group, size).flatten() == group,
    decreases group.len(),
{
    if group.len() == 0 {
        assert(chunks(group, size).flatten() =~= group);
    } else if size == 0 || group.len() <= size {
        seq![group].lemma_flatten_one_element();
        assert(seq![group].first() == group);
    } else {
        let head = group.take(size as int);
        let tail = group.skip(size as int);
        lemma_chunks_rejoin(tail, size);
        lemma_flatten_concat(seq![head], chunks(tail, size));
        seq![head].lemma_flatten_one_element();
        assert(seq![head].first() == head);
        assert(head + tail =~= group);
    }
}

/// Every batch of a group is not empty, holds at most `size` requests, and
/// holds only requests of the group.
pub proof fn lemma_chunks_are_bounded(group: Seq<BatchRequest>, size: nat, i: int)
    requires
        size > 0,
        0 <= i < chunks(group, size).len(),
    ensures
        0 < chunks(group, size)[i].len() <= size,
        forall|j: int|
            0 <= j < chunks(group, size)[i].len() ==> group.contains(
                #[trigger] chunks(group, size)[i][j],
            ),
    decreases group.len(),
{
    if group.len() == 0 {
    } else if group.len() <= size {
        assert forall|j: int| 0 <= j < group.len() implies group.contains(#[trigger] group[j]) by {}
    } else {
        let head = group.take(size as int);
        let tail = group.skip(size as int);
        if i == 0 {
            assert(chunks(group, size)[0] == head);
            assert forall|j: int| 0 <= j < head.len() implies group.contains(#[trigger] head[j]) by {
                assert(head[j] == group[j]);
            }
        } else {
            assert(chunks(group, size)[i] == chunks(tail, size)[i - 1]);
            lemma_chunks_are_bounded(tail, size, i - 1);
            let chunk = chunks(tail, size)[i - 1];
            assert forall|j: int| 0 <= j < chunk.len() implies group.contains(#[trigger] chunk[j]) by {
                assert(tail.contains(chunk[j]));
                let k = choose|k: int| 0 <= k < tail.len() && tail[k] == chunk[j];
                assert(group[k + size] == chunk[j]);
            }
        }
    }
}

/// A group of one request more than the batch size leaves as one full
/// batch and one batch of a single request.
pub proof fn lemma_one_over_splits(group: Seq<BatchRequest>, size: nat)
    requires
        size > 0,
        group.len() == size + 1,
    ensures
        chunks(group, size) == seq![group.take(size as int), group.skip(size as int)],
        chunks(group, size)[0].len() == size,
        chunks(group, size)[1].len() == 1,
{
    let tail = group.skip(size as int);
    assert(tail.len() == 1);
    assert(chunks(tail, size) =~= seq![tail]);
    assert(chunks(group, size) =~= seq![group.take(size as int)] + seq![tail]);
    assert(seq![group.take(size as int)] + seq![tail] =~= seq![group.take(size as int), tail]);
}

/// A group of exactly the batch size leaves as a single batch.
pub proof fn lemma_full_group_is_one_batch(group: Seq<BatchRequest>, size: nat)
    requires
        size > 0,
        group.len() == size,
    ensures
        chunks(group, size) == seq![group],
{
}

/// A group that holds at least its model's batch size is closed at once,
/// whatever the age of its requests: each of its requests leaves in a batch
/// and none stays pending.
pub proof fn lemma_full_group_leaves(
    live: Seq<BatchRequest>,
    i: int,
    now: u64,
    policy: PolicyTable,
    draining: bool,
)
    requires
        0 <= i < live.len(),
        group_of(live, live[i].model_id@).len() >= policy(live[i].model_id@).max_batch_size,
    ensures
        is_due(live, live[i].model_id@, now, policy, draining),
        flushed_of(live, now, policy, draining).contains(live[i]),
        !kept_of(live, now, policy, draining).contains(live[i]),
{
    let model = live[i].model_id@;
    lemma_passing_is_kept(live, of_model(model), i);
    let test = due_test(live, now, policy, draining);
    assert(test(live[i]));
    lemma_passing_is_kept(live, test, i);
    lemma_failing_is_dropped(live, negate(test), live[i]);
}

/// A group with a request that has waited the full queue deadline of its
/// model is closed, however small it is: each of its requests leaves in a
/// batch and none stays pending.
pub proof fn lemma_deadline_closes_group(
    live: Seq<BatchRequest>,
    i: int,
    k: int,
    now: u64,
    policy: PolicyTable,
    draining: bool,
)
    requires
        0 <= i < live.len(),
        0 <= k < live.len(),
        live[k].model_id@ == live[i].model_id@,
        age(live[k], now) >= policy(live[i].model_id@).max_wait_time_ms,
    ensures
        is_due(live, live[i].model_id@, now, policy, draining),
        flushed_of(live, now, policy, draining).contains(live[i]),
        !kept_of(live, now, policy, draining).contains(live[i]),
{
    let model = live[i].model_id@;
    lemma_passing_is_kept(live, of_model(model), i);
    assert(deadline_reached(live, model, now, policy(model).max_wait_time_ms));
    let test = due_test(live, now, policy, draining);
    assert(test(live[i]));
    lemma_passing_is_kept(live, test, i);
    lemma_failing_is_dropped(live, negate(test), live[i]);
}

/// A group that is not full and has no request at its deadline waits while
/// the dispatcher runs: each of its requests stays pending and none leaves.
pub proof fn lemma_waiting_group_stays(live: Seq<BatchRequest>, i: int, now: u64, policy: PolicyTable)
    requires
        0 <= i < live.len(),
        group_of(live, live[i].model_id@).len() < policy(live[i].model_id@).max_batch_size,
        forall|k: int|
            0 <= k < live.len() && (#[trigger] live[k]).model_id@ == live[i].model_id@ ==> age(
                live[k],
                now,
            ) < policy(live[i].model_id@).max_wait_time_ms,
    ensures
        !is_due(live, live[i].model_id@, now, policy, false),
        kept_of(live, now, policy, false).contains(live[i]),
        !flushed_of(live, now, policy, false).contains(live[i]),
{
    let test = due_test(live, now, policy, false);
    assert(!test(live[i]));
    assert(negate(test)(live[i]));
    lemma_passing_is_kept(live, negate(test), i);
    lemma_failing_is_dropped(live, test, live[i]);
}

/// A stopped dispatcher drains: every request that is still in
/// consideration leaves in a batch, whatever its group's size and age, and
/// nothing stays pending.
pub proof fn lemma_drain_flushes_all(live: Seq<BatchRequest>, now: u64, policy: PolicyTable)
    ensures
        flushed_of(live, now, policy, true) == live,
        kept_of(live, now, policy, true).len() == 0,
{
    let test = due_test(live, now, policy, true);
    assert forall|i: int| 0 <= i < live.len() implies test(#[trigger] live[i]) by {
        lemma_passing_is_kept(live, of_model(live[i].model_id@), i);
    }
    lemma_filter_passes_all(live, test);
    lemma_filter_fails_all(live, negate(test));
}

/// A filter that every element passes changes nothing.
pub proof fn lemma_filter_passes_all(items: Seq<BatchRequest>, test: spec_fn(BatchRequest) -> bool)
    requires
        forall|i: int| 0 <= i < items.len() ==> test(#[trigger] items[i]),
    ensures
        items.filter(test) == items,
    decreases items.len(),
{
    reveal(Seq::filter);
    if items.len() > 0 {
        let front = items.drop_last();
        assert forall|i: int| 0 <= i < front.len() implies test(#[trigger] front[i]) by {
            assert(front[i] == items[i]);
        }
        lemma_filter_passes_all(front, test);
        assert(test(items[items.len() - 1]));
        assert(front.push(items.last()) =~= items);
    }
}

/// An element that passes a test is among the filtered elements.
pub proof fn lemma_passing_is_kept(items: Seq<BatchRequest>, test: spec_fn(BatchRequest) -> bool, i: int)
    requires
        0 <= i < items.len(),
        test(items[i]),
    ensures
        items.filter(test).contains(items[i]),
        items.filter(test).len() > 0,
{
    items.lemma_filter_contains(test, i);
}

/// A value that fails a test is not among the filtered elements.
pub proof fn lemma_failing_is_dropped(
    items: Seq<BatchRequest>,
    test: spec_fn(BatchRequest) -> bool,
    value: BatchRequest,
)
    requires
        !test(value),
    ensures
        !items.filter(test).contains(value),
{
    if items.filter(test).contains(value) {
        let k = choose|k: int| 0 <= k < items.filter(test).len() && items.filter(test)[k] == value;
        items.lemma_filter_pred(test, k);
    }
}

/// A request that has waited longer than the queue deadline of its model is
/// given up: it is among the expired and not among those that stay in
/// consideration, so no batch takes it and it does not stay pending.
pub proof fn lemma_overdue_is_given_up(pending: Seq<BatchRequest>, i: int, now: u64, policy: PolicyTable)
    requires
        0 <= i < pending.len(),
        age(pending[i], now) > policy(pending[i].model_id@).max_wait_time_ms,
    ensures
        expired_of(pending, now, policy).contains(pending[i]),
        !live_of(pending, now, policy).contains(pending[i]),
{
    let test = expired_test(now, policy);
    assert(test(pending[i]));
    lemma_passing_is_kept(pending, test, i);
    lemma_failing_is_dropped(pending, negate(test), pending[i]);
}

/// A request that has not waited longer than the queue deadline of its
/// model stays in consideration and is not given up.
pub proof fn lemma_young_stays_live(pending: Seq<BatchRequest>, i: int, now: u64, policy: PolicyTable)
    requires
        0 <= i < pending.len(),
        age(pending[i], now) <= policy(pending[i].model_id@).max_wait_time_ms,
    ensures
        live_of(pending, now, policy).contains(pending[i]),
        !expired_of(pending, now, policy).contains(pending[i]),
{
    let test = expired_test(now, policy);
    assert(!test(pending[i]));
    assert(negate(test)(pending[i]));
    lemma_passing_is_kept(pending, negate(test), i);
    lemma_failing_is_dropped(pending, test, pending[i]);
}

/// The batches of the flushed requests, laid end to end, hold every flushed
/// request as often as it was flushed.
pub proof fn lemma_batches_keep_all(flushed: Seq<BatchRequest>, policy: PolicyTable)
    ensures
        batches_of(flushed, policy).flatten().to_multiset() == flushed.to_multiset(),
    decreases flushed.len(),
{
    if flushed.len() == 0 {
        assert(batches_of(flushed, policy).flatten() =~= flushed);
    } else {
        let model = flushed[0].model_id@;
        let group = group_of(flushed, model);
        let rest = flushed.filter(negate(of_model(model)));
        lemma_rest_is_shorter(flushed);
        lemma_batches_keep_all(rest, policy);
        lemma_chunks_rejoin(group, chunk_size(policy(model)));
        lemma_flatten_concat(chunks(group, chunk_size(policy(model))), batches_of(rest, policy));
        lemma_multiset_commutative(group, batches_of(rest, policy).flatten());
        lemma_split_keeps_all(flushed, of_model(model));
    }
}

/// The batches of a pass hold as many requests as leave on it: the number
/// by which the dispatcher's count of processed requests grows.
pub proof fn lemma_batches_count_the_flushed(flushed: Seq<BatchRequest>, policy: PolicyTable)
    ensures
        batches_of(flushed, policy).flatten().len() == flushed.len(),
{
    lemma_batches_keep_all(flushed, policy);
    to_multiset_len(flushed);
    to_multiset_len(batches_of(flushed, policy).flatten());
}

/// One pass neither loses nor doubles a request: the expired requests, the
/// requests of the batches and the requests that stay pending hold together
/// every request of the pending buffer exactly as often as the buffer did.
/// So every request leaves the buffer in at most one way, and one that has
/// not left is still there.
pub proof fn lemma_pass_keeps_all(
    pending: Seq<BatchRequest>,
    now: u64,
    policy: PolicyTable,
    draining: bool,
)
    ensures
        ({
            let live = live_of(pending, now, policy);
            let flushed = flushed_of(live, now, policy, draining);
            expired_of(pending, now, policy).to_multiset().add(
                batches_of(flushed, policy).flatten().to_multiset(),
            ).add(kept_of(live, now, policy, draining).to_multiset()) == pending.to_multiset()
        }),
{
    let live = live_of(pending, now, policy);
    let flushed = flushed_of(live, now, policy, draining);
    let kept = kept_of(live, now, policy, draining);
    lemma_split_keeps_all(pending, expired_test(now, policy));
    lemma_split_keeps_all(live, due_test(live, now, policy, draining));
    lemma_batches_keep_all(flushed, policy);
    assert(expired_of(pending, now, policy).to_multiset().add(
        batches_of(flushed, policy).flatten().to_multiset(),
    ).add(kept.to_multiset()) =~= expired_of(pending, now, policy).to_multiset().add(
        flushed.to_multiset().add(kept.to_multiset()),
    ));
}

/// Filtering twice is filtering once by both tests.
pub proof fn lemma_filter_twice(
    items: Seq<BatchRequest>,
    first: spec_fn(BatchRequest) -> bool,
    second: spec_fn(BatchRequest) -> bool,
    both: spec_fn(BatchRequest) -> bool,
)
    requires
        forall|i: int|
            0 <= i < items.len() ==> both(#[trigger] items[i]) == (first(items[i]) && second(
                items[i],
            )),
    ensures
        items.filter(first).filter(second) == items.filter(both),
    decreases items.len(),
{
    reveal(Seq::filter);
    if items.len() == 0 {
        assert(items.filter(first) =~= items);
    } else {
        let front = items.drop_last();
        let last = items.last();
        assert forall|i: int| 0 <= i < front.len() implies both(#[trigger] front[i]) == (first(
            front[i],
        ) && second(front[i])) by {
            assert(front[i] == items[i]);
        }
        lemma_filter_twice(front, first, second, both);
        assert(items[items.len() - 1] == last);
        if first(last) {
            assert(items.filter(first) =~= front.filter(first).push(last));
            Seq::lemma_filter_push(front.filter(first), last, second);
        }
    }
}

/// Within a model, arrival order survives batching: the requests for a
/// model, read off the batches in order, are the flushed requests for that
/// model in the order in which they were flushed.
pub proof fn lemma_batches_keep_order(flushed: Seq<BatchRequest>, policy: PolicyTable, model: Seq<char>)
    ensures
        batches_of(flushed, policy).flatten().filter(of_model(model)) == group_of(flushed, model),
    decreases flushed.len(),
{
    reveal(Seq::filter);
    if flushed.len() == 0 {
        assert(batches_of(flushed, policy).flatten() =~= flushed);
    } else {
        let first = flushed[0].model_id@;
        let group = group_of(flushed, first);
        let rest = flushed.filter(negate(of_model(first)));
        lemma_rest_is_shorter(flushed);
        lemma_batches_keep_order(rest, policy, model);
        lemma_chunks_rejoin(group, chunk_size(policy(first)));
        lemma_flatten_concat(chunks(group, chunk_size(policy(first))), batches_of(rest, policy));
        let tail = batches_of(rest, policy).flatten();
        Seq::filter_distributes_over_add(group, tail, of_model(model));
        if model == first {
            lemma_filter_twice(flushed, of_model(first), of_model(model), of_model(first));
            let never = |request: BatchRequest| false;
            lemma_filter_twice(flushed, negate(of_model(first)), of_model(model), never);
            lemma_filter_fails_all(flushed, never);
            assert(group + Seq::<BatchRequest>::empty() =~= group);
        } else {
            let never = |request: BatchRequest| false;
            lemma_filter_twice(flushed, of_model(first), of_model(model), never);
            lemma_filter_fails_all(flushed, never);
            lemma_filter_twice(flushed, negate(of_model(first)), of_model(model), of_model(model));
            assert(Seq::<BatchRequest>::empty() + group_of(flushed, model) =~= group_of(
                flushed,
                model,
            ));
        }
    }
}

/// A filter that no element passes leaves nothing.
pub proof fn lemma_filter_fails_all(items: Seq<BatchRequest>, test: spec_fn(BatchRequest) -> bool)
    requires
        forall|i: int| 0 <= i < items.len() ==> !test(#[trigger] items[i]),
    ensures
        items.filter(test) == Seq::<BatchRequest>::empty(),
    decreases items.len(),
{
    reveal(Seq::filter);
    if items.len() > 0 {
        let front = items.drop_last();
        assert forall|i: int| 0 <= i < front.len() implies !test(#[trigger] front[i]) by {
            assert(front[i] == items[i]);
        }
        lemma_filter_fails_all(front, test);
        assert(!test(items[items.len() - 1]));
    } else {
        assert(items.filter(test) =~= Seq::<BatchRequest>::empty());
    }
}

/// The whole group of a closed model leaves, in arrival order: read off the
/// batches of a pass, the requests for a model whose group is closed are
/// that model's live requests in the order of their arrival.
pub proof fn lemma_closed_group_leaves_in_order(
    live: Seq<BatchRequest>,
    now: u64,
    policy: PolicyTable,
    draining: bool,
    model: Seq<char>,
)
    requires
        is_due(live, model, now, policy, draining),
    ensures
        batches_of(flushed_of(live, now, policy, draining), policy).flatten().filter(of_model(model))
            == group_of(live, model),
{
    let flushed = flushed_of(live, now, policy, draining);
    lemma_batches_keep_order(flushed, policy, model);
    lemma_filter_twice(live, due_test(live, now, policy, draining), of_model(model), of_model(model));
}

/// Every batch of a pass is not empty, holds requests of one model only,
/// and holds at most that model's batch size.
pub proof fn lemma_batches_are_bounded(flushed: Seq<BatchRequest>, policy: PolicyTable, i: int)
    requires
        0 <= i < batches_of(flushed, policy).len(),
    ensures
        ({
            let batch = batches_of(flushed, policy)[i];
            &&& batch.len() > 0
            &&& batch.len() <= chunk_size(policy(batch[0].model_id@))
            &&& forall|j: int|
                0 <= j < batch.len() ==> (#[trigger] batch[j]).model_id@ == batch[0].model_id@
            &&& forall|j: int| 0 <= j < batch.len() ==> flushed.contains(#[trigger] batch[j])
        }),
    decreases flushed.len(),
{
    if flushed.len() > 0 {
        let model = flushed[0].model_id@;
        let group = group_of(flushed, model);
        let rest = flushed.filter(negate(of_model(model)));
        let size = chunk_size(policy(model));
        let head = chunks(group, size);
        lemma_rest_is_shorter(flushed);
        if i < head.len() {
            assert(batches_of(flushed, policy)[i] == head[i]);
            lemma_chunks_are_bounded(group, size, i);
            let batch = head[i];
            assert forall|j: int| 0 <= j < batch.len() implies (#[trigger] batch[j]).model_id@
                == model && flushed.contains(batch[j]) by {
                assert(group.contains(batch[j]));
                let k = choose|k: int| 0 <= k < group.len() && group[k] == batch[j];
                flushed.lemma_filter_pred(of_model(model), k);
                flushed.lemma_filter_contains_rev(of_model(model), batch[j]);
            }
            assert(batch[0].model_id@ == model);
        } else {
            assert(batches_of(flushed, policy)[i] == batches_of(rest, policy)[i - head.len()]);
            lemma_batches_are_bounded(rest, policy, i - head.len());
            let batch = batches_of(rest, policy)[i - head.len()];
            assert forall|j: int| 0 <= j < batch.len() implies flushed.contains(#[trigger] batch[j]) by {
                assert(rest.contains(batch[j]));
                flushed.lemma_filter_contains_rev(negate(of_model(model)), batch[j]);
            }
        }
    }
}

/// The total latency of an answered request covers its wait in the queue
/// and the time of the inference: it is their sum, whatever the clock
/// readings were.
pub proof fn lemma_total_covers_wait_and_inference(
    request: BatchRequest,
    batch_len: nat,
    report: ExecutionReport,
)
    ensures
        ({
            let metrics = metrics_for(request, batch_len, report);
            &&& metrics.queue_wait_ms == queue_wait(request, report)
            &&& metrics.inference_latency_ms == inference_time(report)
            &&& metrics.total_latency_ms == metrics.queue_wait_ms + metrics.inference_latency_ms
            &&& metrics.total_latency_ms >= metrics.queue_wait_ms + metrics.inference_latency_ms
        }),
{
}

} // verus!
