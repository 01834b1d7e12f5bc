//! What holds of a collector over any run of its worker and its consumer.
//!
//! A run is a sequence of steps, of either side, in any order. The laws speak of
//! the collector's state and of what each step does to it, which is what the
//! functions of the collector promise.
use crate::collector::{CollectorView, StartupResult};
use crate::delivery::{Delivery, DeliveryEntry};
use crate::error::{
    CollectorReceiveError, CollectorReceiveErrorKind, CollectorStartError, ErrorDetail,
    ReceiveTimeoutError, TryReceiveError,
};
use crate::worker::WorkerStage;
use vstd::prelude::*;

verus! {

/// One step of a collector's worker or of its consumer.
pub enum Step<E, S> {
    /// The ring-buffer callback handles a sample with this decoded form.
    Sample(Result<E, S>),
    /// The consumer receives, with or without waiting.
    Receive,
    /// The consumer takes the startup report, if there is one.
    TakeStartup,
    /// The consumer stops to await the startup report.
    CloseStartup,
    /// The consumer requests shutdown.
    Shutdown,
    /// The worker has done what its stage asks for, with this outcome.
    Advance(Result<(), S>),
    /// The worker has gone.
    WorkerExit,
}

/// What a step adds to the delivery stream's history.
pub enum Arrival<E, S> {
    /// A sample was queued.
    Accepted(Delivery<E, S>),
    /// A sample was omitted.
    Omitted,
    /// A poll failed.
    PollFailed(S),
}

/// Whether the step can happen. Samples come from the worker, so none comes once
/// nothing more comes from it.
pub open spec fn enabled<E, S>(state: CollectorView<E, S>, step: Step<E, S>) -> bool {
    step is Sample ==> !state.worker_gone()
}

/// The state after a step.
pub open spec fn after<E, S>(
    state: CollectorView<E, S>,
    step: Step<E, S>,
) -> CollectorView<E, S> {
    match step {
        Step::Sample(decoded) => state.after_sample(decoded),
        Step::Receive => state.after_receive(),
        Step::TakeStartup => state.after_startup_taken(),
        Step::CloseStartup => state.after_startup_closed(),
        Step::Shutdown => state.after_shutdown(),
        Step::Advance(outcome) => state.after_step(outcome),
        Step::WorkerExit => state.after_worker_exit(),
    }
}

/// What a step takes out of the stream.
pub open spec fn taken<E, S>(state: CollectorView<E, S>, step: Step<E, S>) -> Seq<
    Delivery<E, S>,
> {
    if step is Receive && state.stream().len() > 0 {
        seq![state.stream()[0]]
    } else {
        Seq::empty()
    }
}

/// What a step adds to the history.
pub open spec fn arrival<E, S>(state: CollectorView<E, S>, step: Step<E, S>) -> Seq<
    Arrival<E, S>,
> {
    match step {
        Step::Sample(decoded) => if !state.running {
            Seq::empty()
        } else if state.queue.entries.has_room() {
            seq![Arrival::Accepted(crate::delivery::delivery_of(decoded))]
        } else {
            seq![Arrival::Omitted]
        },
        Step::Advance(Err(source)) => if state.stage is Poll && state.running {
            seq![Arrival::PollFailed(source)]
        } else {
            Seq::empty()
        },
        _ => Seq::empty(),
    }
}

/// Whether all steps of a run can happen, one after the other.
pub open spec fn can_run<E, S>(state: CollectorView<E, S>, steps: Seq<Step<E, S>>) -> bool
    decreases steps.len(),
{
    steps.len() == 0 || (enabled(state, steps[0]) && can_run(
        after(state, steps[0]),
        steps.drop_first(),
    ))
}

/// The state after a run.
pub open spec fn run<E, S>(
    state: CollectorView<E, S>,
    steps: Seq<Step<E, S>>,
) -> CollectorView<E, S>
    decreases steps.len(),
{
    if steps.len() == 0 {
        state
    } else {
        run(after(state, steps[0]), steps.drop_first())
    }
}

/// What the consumer takes out of the stream during a run, in order.
pub open spec fn received<E, S>(
    state: CollectorView<E, S>,
    steps: Seq<Step<E, S>>,
) -> Seq<Delivery<E, S>>
    decreases steps.len(),
{
    if steps.len() == 0 {
        Seq::empty()
    } else {
        taken(state, steps[0]) + received(after(state, steps[0]), steps.drop_first())
    }
}

/// The history of a run, in order.
pub open spec fn history<E, S>(
    state: CollectorView<E, S>,
    steps: Seq<Step<E, S>>,
) -> Seq<Arrival<E, S>>
    decreases steps.len(),
{
    if steps.len() == 0 {
        Seq::empty()
    } else {
        arrival(state, steps[0]) + history(after(state, steps[0]), steps.drop_first())
    }
}

/// The notice, if entries were omitted.
pub open spec fn notice_if<E, S>(omitted: bool) -> Seq<Delivery<E, S>> {
    if omitted {
        seq![Err(crate::error::omission_notice())]
    } else {
        Seq::empty()
    }
}

/// What a history amounts to for the consumer: each accepted delivery, and each
/// poll failure, with one notice before it if samples were omitted since the
/// accepted delivery before. `omitted` tells whether some were before the
/// history began.
pub open spec fn rendered<E, S>(omitted: bool, arrivals: Seq<Arrival<E, S>>) -> Seq<
    Delivery<E, S>,
>
    decreases arrivals.len(),
{
    if arrivals.len() == 0 {
        Seq::empty()
    } else {
        let rest = arrivals.drop_first();
        match arrivals[0] {
            Arrival::Accepted(delivery) => notice_if(omitted) + seq![delivery] + rendered(
                false,
                rest,
            ),
            Arrival::Omitted => rendered(true, rest),
            Arrival::PollFailed(source) => notice_if(omitted) + seq![
                Err(crate::collector::poll_failure(source)),
            ] + rendered(omitted, rest),
        }
    }
}

/// The accepted deliveries of a history, in order.
pub open spec fn accepted<E, S>(arrivals: Seq<Arrival<E, S>>) -> Seq<Delivery<E, S>>
    decreases arrivals.len(),
{
    if arrivals.len() == 0 {
        Seq::empty()
    } else {
        match arrivals[0] {
            Arrival::Accepted(delivery) => seq![delivery] + accepted(arrivals.drop_first()),
            _ => accepted(arrivals.drop_first()),
        }
    }
}

/// Every step keeps the collector's invariant and its capacity.
pub proof fn law_step_keeps_invariant<E, S>(state: CollectorView<E, S>, step: Step<E, S>)
    requires
        state.wf(),
        enabled(state, step),
    ensures
        after(state, step).wf(),
        after(state, step).queue.entries.capacity == state.queue.entries.capacity,
{
    crate::collector::lemma_after_receive(state);
}

/// A history of one arrival amounts to what that arrival stands for.
proof fn lemma_rendered_one<E, S>(omitted: bool, arrived: Arrival<E, S>)
    ensures
        rendered(omitted, seq![arrived]) == match arrived {
            Arrival::Accepted(delivery) => notice_if(omitted) + seq![delivery],
            Arrival::Omitted => Seq::empty(),
            Arrival::PollFailed(source) => notice_if(omitted) + seq![
                Err(crate::collector::poll_failure(source)),
            ],
        },
{
    let rest = seq![arrived].drop_first();
    assert(rest == Seq::<Arrival<E, S>>::empty());
    assert(rendered(omitted, rest) == Seq::<Delivery<E, S>>::empty());
    assert(rendered(true, rest) == Seq::<Delivery<E, S>>::empty());
    assert(rendered(false, rest) == Seq::<Delivery<E, S>>::empty());
    match arrived {
        Arrival::Accepted(delivery) => {
            let shown = notice_if(omitted) + seq![delivery];
            assert(shown + rendered(false, rest) == shown);
        },
        Arrival::Omitted => {},
        Arrival::PollFailed(source) => {
            let shown = notice_if(omitted) + seq![
                Err::<E, _>(crate::collector::poll_failure(source)),
            ];
            assert(shown + rendered(omitted, rest) == shown);
        },
    }
}

/// An accepted sample is appended to the stream, after the notice if one is due.
proof fn lemma_accepted_stream<E, S>(state: CollectorView<E, S>, decoded: Result<E, S>)
    requires
        state.running,
        state.queue.entries.has_room(),
        state.terminal.items.len() == 0,
    ensures
        state.after_sample(decoded).stream() == state.stream() + (notice_if(
            state.queue.output_full_pending,
        ) + seq![crate::delivery::delivery_of(decoded)]),
{
    let entry = DeliveryEntry {
        delivery: crate::delivery::delivery_of(decoded),
        output_full_before: state.queue.output_full_pending,
    };
    let items = state.queue.entries.items;
    crate::delivery::lemma_entries_stream_push(items, entry);
    let next = state.after_sample(decoded);
    assert(next.queue.entries.items == items.push(entry));
    assert(crate::delivery::entry_stream(entry) == notice_if(state.queue.output_full_pending)
        + seq![entry.delivery]);
    assert(next.stream() == state.stream() + crate::delivery::entry_stream(entry));
}

/// A poll failure is appended to the stream, after the notice if one is due.
proof fn lemma_poll_failure_stream<E, S>(state: CollectorView<E, S>, source: S)
    requires
        state.running,
        state.stage is Poll,
        state.terminal.items.len() == 0,
    ensures
        state.after_step(Err(source)).stream() == state.stream() + (notice_if(
            state.queue.output_full_pending,
        ) + seq![Err(crate::collector::poll_failure(source))]),
{
    let ending = crate::collector::terminal_errors(state.queue.output_full_pending, source);
    assert(crate::collector::terminal_stream::<E, S>(ending) == notice_if::<E, S>(
        state.queue.output_full_pending,
    ) + seq![Err(crate::collector::poll_failure(source))]);
    assert(state.after_step(Err(source)).stream() == state.stream()
        + crate::collector::terminal_stream::<E, S>(ending));
}

/// A step takes from the front of the stream what the consumer receives, and
/// appends to its end what the step adds to the history.
proof fn lemma_step_stream<E, S>(state: CollectorView<E, S>, step: Step<E, S>)
    requires
        state.wf(),
        enabled(state, step),
    ensures
        taken(state, step) + after(state, step).stream() == state.stream() + rendered(
            state.queue.output_full_pending,
            arrival(state, step),
        ),
{
    let next = after(state, step);
    let omitted = state.queue.output_full_pending;
    let arrived = arrival(state, step);
    if step is Receive {
        crate::collector::lemma_after_receive(state);
        assert(taken(state, step) + next.stream() == state.stream());
        assert(state.stream() + rendered(omitted, arrived) == state.stream());
    } else {
        assert(taken(state, step) + next.stream() == next.stream());
        if arrived.len() == 0 {
            assert(next.stream() == state.stream());
            assert(state.stream() + rendered(omitted, arrived) == state.stream());
        } else {
            assert(arrived == seq![arrived[0]]);
            lemma_rendered_one(omitted, arrived[0]);
            match step {
                Step::Sample(decoded) => {
                    if state.queue.entries.has_room() {
                        lemma_accepted_stream(state, decoded);
                    } else {
                        assert(next.stream() == state.stream());
                        assert(state.stream() + rendered(omitted, arrived) == state.stream());
                    }
                },
                Step::Advance(Err(source)) => {
                    lemma_poll_failure_stream(state, source);
                },
                _ => {},
            }
        }
    }
}

/// What comes after a step renders as if the step's part of the history came
/// before it.
proof fn lemma_step_rendered<E, S>(
    state: CollectorView<E, S>,
    step: Step<E, S>,
    later: Seq<Arrival<E, S>>,
)
    requires
        state.wf(),
        enabled(state, step),
    ensures
        rendered(state.queue.output_full_pending, arrival(state, step) + later) == rendered(
            state.queue.output_full_pending,
            arrival(state, step),
        ) + rendered(after(state, step).queue.output_full_pending, later),
{
    reveal_with_fuel(rendered, 2);
    let omitted = state.queue.output_full_pending;
    let first = arrival(state, step);
    let none = Seq::<Arrival<E, S>>::empty();
    assert(rendered(omitted, none) == Seq::<Delivery<E, S>>::empty());
    if first.len() == 0 {
        assert(first + later == later);
        assert(rendered(omitted, first) + rendered(omitted, later) == rendered(omitted, later));
    } else {
        assert(first.drop_first() == none);
        assert((first + later).drop_first() == later);
        assert((first + later)[0] == first[0]);
        assert(rendered(true, none) == Seq::<Delivery<E, S>>::empty());
        assert(rendered(false, none) == Seq::<Delivery<E, S>>::empty());
        assert(rendered(omitted, first + later) == rendered(omitted, first) + rendered(
            after(state, step).queue.output_full_pending,
            later,
        ));
    }
}

/// Joins two parts of a run: `took` and then `got` leave `left`, by way of
/// `between`, out of `had` and what the parts add, `first` and then `others`.
proof fn lemma_regroup<A>(
    took: Seq<A>,
    got: Seq<A>,
    left: Seq<A>,
    between: Seq<A>,
    had: Seq<A>,
    first: Seq<A>,
    others: Seq<A>,
)
    requires
        took + between == had + first,
        got + left == between + others,
    ensures
        (took + got) + left == had + (first + others),
{
    assert((took + got) + left == took + (got + left));
    assert(took + (between + others) == (took + between) + others);
    assert((had + first) + others == had + (first + others));
}

/// Nothing is lost, repeated or reordered: over any run, what the consumer has
/// received, followed by what it has still to receive, is what it had to receive
/// before, followed by the accepted samples in the order of their arrival and
/// the poll failure that ended the collection, with one notice before each of
/// these that comes after an omission.
pub proof fn law_deliveries_in_arrival_order<E, S>(
    state: CollectorView<E, S>,
    steps: Seq<Step<E, S>>,
)
    requires
        state.wf(),
        can_run(state, steps),
    ensures
        received(state, steps) + run(state, steps).stream() == state.stream() + rendered(
            state.queue.output_full_pending,
            history(state, steps),
        ),
    decreases steps.len(),
{
    let omitted = state.queue.output_full_pending;
    if steps.len() == 0 {
        assert(received(state, steps) + run(state, steps).stream() == state.stream());
        assert(state.stream() + rendered(omitted, history(state, steps)) == state.stream());
    } else {
        let step = steps[0];
        let rest = steps.drop_first();
        let next = after(state, step);
        let later = history(next, rest);
        law_step_keeps_invariant(state, step);
        law_deliveries_in_arrival_order(next, rest);
        lemma_step_stream(state, step);
        lemma_step_rendered(state, step, later);
        lemma_regroup(
            taken(state, step),
            received(next, rest),
            run(next, rest).stream(),
            next.stream(),
            state.stream(),
            rendered(omitted, arrival(state, step)),
            rendered(next.queue.output_full_pending, later),
        );
    }
}

/// Over any run, the queue stays within the capacity that the collector was
/// created with, and the collector keeps its invariant.
pub proof fn law_capacity_bounds_queue<E, S>(state: CollectorView<E, S>, steps: Seq<Step<E, S>>)
    requires
        state.wf(),
        can_run(state, steps),
    ensures
        run(state, steps).wf(),
        run(state, steps).queue.entries.capacity == state.queue.entries.capacity,
        run(state, steps).queue.entries.items.len() <= state.queue.entries.capacity,
    decreases steps.len(),
{
    if steps.len() > 0 {
        law_step_keeps_invariant(state, steps[0]);
        law_capacity_bounds_queue(after(state, steps[0]), steps.drop_first());
    }
}

/// The notice takes no entry of its own: a sample is accepted if and only if the
/// queue holds fewer entries than its capacity, and then takes one, whether or
/// not a notice goes with it.
pub proof fn law_notice_takes_no_entry<E, S>(state: CollectorView<E, S>, decoded: Result<E, S>)
    requires
        state.wf(),
        state.running,
    ensures
        ({
            let before = state.queue.entries.items.len();
            let next = state.after_sample(decoded);
            if before < state.queue.entries.capacity {
                &&& next.queue.entries.items.len() == before + 1
                &&& next.queue.entries.items.last().delivery == crate::delivery::delivery_of(
                    decoded,
                )
                &&& next.queue.entries.items.last().output_full_before
                    == state.queue.output_full_pending
                &&& !next.queue.output_full_pending
            } else {
                &&& next.queue.entries.items == state.queue.entries.items
                &&& next.queue.output_full_pending
            }
        }),
{
}

/// Whether a delivery is the notice that entries were omitted.
pub open spec fn is_notice<E, S>(delivery: Delivery<E, S>) -> bool {
    delivery matches Err(error) && error.failure() == CollectorReceiveErrorKind::OutputQueueFull
}

/// Whether a delivery is a poll failure.
pub open spec fn is_poll_failure<E, S>(delivery: Delivery<E, S>) -> bool {
    delivery matches Err(error) && error.failure() == CollectorReceiveErrorKind::PollFailure
}

/// Whether a position of a stream of entries holds a sample, or the notice with a
/// sample right after it.
pub open spec fn holds_entry<E, S>(stream: Seq<Delivery<E, S>>, at: int) -> bool {
    if is_notice(stream[at]) {
        &&& stream[at] == Err::<E, _>(crate::error::omission_notice::<S>())
        &&& at + 1 < stream.len()
        &&& crate::collector::is_sample(stream[at + 1])
    } else {
        crate::collector::is_sample(stream[at])
    }
}

/// What each position of a stream of entries holds.
proof fn lemma_entries_stream_positions<E, S>(entries: Seq<DeliveryEntry<E, S>>)
    requires
        forall|i: int|
            0 <= i < entries.len() ==> crate::collector::is_sample((#[trigger] entries[i]).delivery),
    ensures
        forall|i: int|
            0 <= i < crate::delivery::entries_stream(entries).len() ==> #[trigger] holds_entry(
                crate::delivery::entries_stream(entries),
                i,
            ),
    decreases entries.len(),
{
    if entries.len() > 0 {
        let rest = entries.drop_first();
        assert forall|i: int| 0 <= i < rest.len() implies crate::collector::is_sample(
            (#[trigger] rest[i]).delivery,
        ) by {
            assert(rest[i] == entries[i + 1]);
        }
        lemma_entries_stream_positions(rest);
        let head = crate::delivery::entry_stream(entries[0]);
        let tail = crate::delivery::entries_stream(rest);
        let stream = crate::delivery::entries_stream(entries);
        assert(stream == head + tail);
        assert(crate::collector::is_sample(entries[0].delivery));
        assert forall|i: int| 0 <= i < stream.len() implies #[trigger] holds_entry(stream, i) by {
            if i >= head.len() {
                assert(holds_entry(tail, i - head.len()));
                assert(stream[i] == tail[i - head.len()]);
                if is_notice(stream[i]) {
                    assert(stream[i + 1] == tail[i - head.len() + 1]);
                }
            }
        }
    }
}

/// Whether a position of what there is to receive holds a sample; or the notice,
/// with a sample or a poll failure right after it; or, in the last place, a poll
/// failure with its source, after which nothing more comes from the worker.
pub open spec fn holds_delivery<E, S>(state: CollectorView<E, S>, at: int) -> bool {
    let stream = state.stream();
    if is_notice(stream[at]) {
        &&& stream[at] == Err::<E, _>(crate::error::omission_notice::<S>())
        &&& at + 1 < stream.len()
        &&& crate::collector::is_sample(stream[at + 1]) || is_poll_failure(stream[at + 1])
    } else if is_poll_failure(stream[at]) {
        &&& stream[at]->Err_0.reason() is Source
        &&& at == stream.len() - 1
        &&& state.worker_gone()
    } else {
        crate::collector::is_sample(stream[at])
    }
}

/// What each position of what there is to receive holds.
proof fn lemma_stream_positions<E, S>(state: CollectorView<E, S>)
    requires
        state.wf(),
    ensures
        forall|i: int| 0 <= i < state.stream().len() ==> #[trigger] holds_delivery(state, i),
{
    let stream = state.stream();
    let pending = crate::collector::pending_stream(state.pending_delivery);
    let entries = crate::delivery::entries_stream(state.queue.entries.items);
    let ending = crate::collector::terminal_stream::<E, S>(state.terminal.items);
    let start = pending.len() as int;
    let end = start + entries.len();
    lemma_entries_stream_positions(state.queue.entries.items);
    assert(stream == pending + entries + ending);
    assert forall|i: int| 0 <= i < stream.len() implies #[trigger] holds_delivery(state, i) by {
        if i < start {
            assert(stream[i] == pending[i]);
        } else if i < end {
            assert(holds_entry(entries, i - start));
            assert(stream[i] == entries[i - start]);
            if is_notice(stream[i]) {
                assert(stream[i + 1] == entries[i - start + 1]);
            }
        } else {
            assert(stream[i] == ending[i - end]);
            if i + 1 < stream.len() {
                assert(stream[i + 1] == ending[i - end + 1]);
            }
        }
    }
}

/// Notices are coalesced: in what there is to receive, a notice is always
/// directly followed by the sample or the poll failure that it was returned
/// before, so that no two notices stand side by side and none comes last.
pub proof fn law_notices_are_coalesced<E, S>(state: CollectorView<E, S>)
    requires
        state.wf(),
    ensures
        coalesced(state.stream()),
{
    lemma_stream_positions(state);
    assert forall|i: int|
        0 <= i < state.stream().len() && is_notice(#[trigger] state.stream()[i]) implies i + 1
        < state.stream().len() && (crate::collector::is_sample(state.stream()[i + 1])
        || is_poll_failure(state.stream()[i + 1])) by {
        assert(holds_delivery(state, i));
    }
}

/// Buffered entries precede the poll failure: it is the last of what there is to
/// receive.
pub proof fn law_poll_failure_comes_last<E, S>(state: CollectorView<E, S>)
    requires
        state.wf(),
    ensures
        forall|i: int|
            0 <= i < state.stream().len() && is_poll_failure(#[trigger] state.stream()[i]) ==> i
                == state.stream().len() - 1,
{
    lemma_stream_positions(state);
    assert forall|i: int|
        0 <= i < state.stream().len() && is_poll_failure(#[trigger] state.stream()[i]) implies i
        == state.stream().len() - 1 by {
        assert(holds_delivery(state, i));
    }
}

/// The state after `count` receives in a row.
pub open spec fn after_receives<E, S>(
    state: CollectorView<E, S>,
    count: nat,
) -> CollectorView<E, S>
    decreases count,
{
    if count == 0 {
        state
    } else {
        after_receives(state, (count - 1) as nat).after_receive()
    }
}

/// Once the worker has gone, receives hand out what is left in order, and from
/// then on each of them reports that the worker has stopped.
pub proof fn law_receives_drain_then_stop<E, S>(state: CollectorView<E, S>, count: nat)
    requires
        state.wf(),
        state.worker_gone(),
    ensures
        after_receives(state, count).next_delivery() == Some(
            if count < state.stream().len() {
                state.stream()[count as int]
            } else {
                Err(crate::error::worker_stop_error())
            },
        ),
{
    lemma_after_receives(state, count);
}

/// After a poll failure has ended the collection, receives hand out the buffered
/// deliveries, then the notice of a last omission if there was one, then the poll
/// failure, and from then on each of them reports that the worker has stopped.
pub proof fn law_poll_failure_then_stop<E, S>(
    state: CollectorView<E, S>,
    source: S,
    count: nat,
)
    requires
        state.wf(),
        state.stage is Poll,
        state.running,
    ensures
        ({
            let ended = state.after_step(Err(source));
            let remaining = state.stream() + notice_if(state.queue.output_full_pending) + seq![
                Err(crate::collector::poll_failure(source)),
            ];
            after_receives(ended, count).next_delivery() == Some(
                if count < remaining.len() {
                    remaining[count as int]
                } else {
                    Err(crate::error::worker_stop_error())
                },
            )
        }),
{
    let ended = state.after_step(Err(source));
    law_step_keeps_invariant(state, Step::Advance(Err(source)));
    lemma_poll_failure_stream(state, source);
    assert(ended.stream() == state.stream() + notice_if(state.queue.output_full_pending) + seq![
        Err(crate::collector::poll_failure(source)),
    ]);
    law_receives_drain_then_stop(ended, count);
}

/// Once a receive has returned a poll failure, every later receive reports that
/// the worker has stopped, whatever else happens in between.
pub proof fn law_stop_after_returned_poll_failure<E, S>(
    state: CollectorView<E, S>,
    steps: Seq<Step<E, S>>,
)
    requires
        state.wf(),
        state.next_delivery() matches Some(delivery) && is_poll_failure(delivery),
        can_run(state.after_receive(), steps),
    ensures
        run(state.after_receive(), steps).next_delivery() == Some(
            Err::<E, _>(crate::error::worker_stop_error::<S>()),
        ),
{
    lemma_stream_positions(state);
    crate::collector::lemma_after_receive(state);
    assert(state.stream().len() > 0);
    assert(holds_delivery(state, 0));
    lemma_drained_stays_drained(state.after_receive(), steps);
}

/// Nothing comes to a collector without a worker.
proof fn lemma_drained_stays_drained<E, S>(state: CollectorView<E, S>, steps: Seq<Step<E, S>>)
    requires
        state.wf(),
        state.worker_gone(),
        state.stream().len() == 0,
        can_run(state, steps),
    ensures
        run(state, steps).next_delivery() == Some(
            Err::<E, _>(crate::error::worker_stop_error::<S>()),
        ),
    decreases steps.len(),
{
    if steps.len() > 0 {
        let next = after(state, steps[0]);
        law_step_keeps_invariant(state, steps[0]);
        lemma_step_stream(state, steps[0]);
        assert(rendered(state.queue.output_full_pending, arrival(state, steps[0])).len() == 0);
        assert((taken(state, steps[0]) + next.stream()).len() == 0);
        lemma_drained_stays_drained(next, steps.drop_first());
    }
}

/// A receive finds nothing only while the worker has not finished.
pub proof fn law_nothing_found_only_before_finish<E, S>(state: CollectorView<E, S>)
    requires
        state.wf(),
    ensures
        state.next_delivery() is None <==> state.stream().len() == 0 && !(state.stage is Finished),
{
}

/// Receives in a row leave the rest of the stream.
proof fn lemma_after_receives<E, S>(state: CollectorView<E, S>, count: nat)
    requires
        state.wf(),
    ensures
        after_receives(state, count).wf(),
        after_receives(state, count).worker_gone() == state.worker_gone(),
        after_receives(state, count).stream() == if count <= state.stream().len() {
            state.stream().skip(count as int)
        } else {
            Seq::empty()
        },
    decreases count,
{
    if count == 0 {
        assert(state.stream().skip(0) == state.stream());
    } else {
        let before = after_receives(state, (count - 1) as nat);
        lemma_after_receives(state, (count - 1) as nat);
        crate::collector::lemma_after_receive(before);
        if count <= state.stream().len() {
            assert(before.stream().drop_first() == state.stream().skip(count as int));
        } else if count == state.stream().len() + 1 {
            assert(before.stream() == Seq::<Delivery<E, S>>::empty());
        }
    }
}

/// The samples of a stream, in order: its events and its malformed samples.
pub open spec fn samples<E, S>(stream: Seq<Delivery<E, S>>) -> Seq<Delivery<E, S>> {
    stream.filter(|delivery: Delivery<E, S>| crate::collector::is_sample(delivery))
}

/// The samples of two streams in a row are those of the first, then those of the
/// second.
proof fn lemma_samples_add<E, S>(first: Seq<Delivery<E, S>>, second: Seq<Delivery<E, S>>)
    ensures
        samples(first + second) == samples(first) + samples(second),
{
    Seq::filter_distributes_over_add(
        first,
        second,
        |delivery: Delivery<E, S>| crate::collector::is_sample(delivery),
    );
}

/// The samples of a stream of one delivery.
proof fn lemma_samples_one<E, S>(delivery: Delivery<E, S>)
    ensures
        samples(seq![delivery]) == if crate::collector::is_sample(delivery) {
            seq![delivery]
        } else {
            Seq::empty()
        },
{
    reveal_with_fuel(Seq::filter, 2);
    assert(seq![delivery].drop_last() == Seq::<Delivery<E, S>>::empty());
}

/// The samples of what a history amounts to are the accepted ones.
proof fn lemma_rendered_samples<E, S>(omitted: bool, arrivals: Seq<Arrival<E, S>>)
    requires
        forall|i: int|
            0 <= i < arrivals.len() ==> ((#[trigger] arrivals[i]) matches Arrival::Accepted(delivery)
                ==> crate::collector::is_sample(delivery)),
    ensures
        samples(rendered(omitted, arrivals)) == accepted(arrivals),
    decreases arrivals.len(),
{
    if arrivals.len() > 0 {
        let rest = arrivals.drop_first();
        assert forall|i: int| 0 <= i < rest.len() implies ((
        #[trigger] rest[i]) matches Arrival::Accepted(delivery) ==> crate::collector::is_sample(
            delivery,
        )) by {
            assert(rest[i] == arrivals[i + 1]);
        }
        let notice = notice_if::<E, S>(omitted);
        assert(samples(notice) == Seq::<Delivery<E, S>>::empty()) by {
            if omitted {
                lemma_samples_one::<E, S>(Err(crate::error::omission_notice()));
            }
        }
        match arrivals[0] {
            Arrival::Accepted(delivery) => {
                lemma_rendered_samples(false, rest);
                lemma_samples_one(delivery);
                lemma_samples_add(notice, seq![delivery]);
                lemma_samples_add(notice + seq![delivery], rendered(false, rest));
                assert(crate::collector::is_sample(delivery));
                assert(samples(notice + seq![delivery]) == seq![delivery]);
            },
            Arrival::Omitted => {
                lemma_rendered_samples(true, rest);
            },
            Arrival::PollFailed(source) => {
                let failure: Delivery<E, S> = Err(crate::collector::poll_failure(source));
                lemma_rendered_samples(omitted, rest);
                lemma_samples_one(failure);
                lemma_samples_add(notice, seq![failure]);
                lemma_samples_add(notice + seq![failure], rendered(omitted, rest));
                assert(samples(notice + seq![failure]) == Seq::<Delivery<E, S>>::empty());
                assert(samples(rendered(omitted, arrivals)) == samples(rendered(omitted, rest)));
            },
        }
    }
}

/// Only samples are accepted.
proof fn lemma_history_accepts_samples<E, S>(state: CollectorView<E, S>, steps: Seq<Step<E, S>>)
    ensures
        forall|i: int|
            0 <= i < history(state, steps).len() ==> ((#[trigger] history(
                state,
                steps,
            )[i]) matches Arrival::Accepted(delivery) ==> crate::collector::is_sample(delivery)),
    decreases steps.len(),
{
    if steps.len() > 0 {
        let first = arrival(state, steps[0]);
        let later = history(after(state, steps[0]), steps.drop_first());
        lemma_history_accepts_samples(after(state, steps[0]), steps.drop_first());
        assert forall|i: int| 0 <= i < history(state, steps).len() implies ((#[trigger] history(
            state,
            steps,
        )[i]) matches Arrival::Accepted(delivery) ==> crate::collector::is_sample(delivery)) by {
            if i >= first.len() {
                assert(history(state, steps)[i] == later[i - first.len()]);
            }
        }
    }
}

/// Every accepted sample is delivered exactly once, in the order of arrival:
/// over any run, the samples that the consumer has received and has still to
/// receive are those that it had to receive before and the accepted ones.
pub proof fn law_accepted_samples_are_delivered<E, S>(
    state: CollectorView<E, S>,
    steps: Seq<Step<E, S>>,
)
    requires
        state.wf(),
        can_run(state, steps),
    ensures
        samples(received(state, steps) + run(state, steps).stream()) == samples(state.stream())
            + accepted(history(state, steps)),
{
    law_deliveries_in_arrival_order(state, steps);
    lemma_history_accepts_samples(state, steps);
    lemma_rendered_samples(state.queue.output_full_pending, history(state, steps));
    lemma_samples_add(
        state.stream(),
        rendered(state.queue.output_full_pending, history(state, steps)),
    );
}

/// No notice without an omission: over a run in which nothing is omitted, from a
/// state in which no notice is due, the consumer neither receives a notice nor
/// has one to receive.
pub proof fn law_no_notice_without_omission<E, S>(
    state: CollectorView<E, S>,
    steps: Seq<Step<E, S>>,
)
    requires
        state.wf(),
        can_run(state, steps),
        !state.queue.output_full_pending,
        forall|i: int|
            0 <= i < state.stream().len() ==> !is_notice(#[trigger] state.stream()[i]),
        forall|i: int|
            0 <= i < history(state, steps).len() ==> !(#[trigger] history(state, steps)[i]
                is Omitted),
    ensures
        forall|i: int|
            0 <= i < received(state, steps).len() ==> !is_notice(
                #[trigger] received(state, steps)[i],
            ),
        forall|i: int|
            0 <= i < run(state, steps).stream().len() ==> !is_notice(
                #[trigger] run(state, steps).stream()[i],
            ),
{
    let got = received(state, steps);
    let left = run(state, steps).stream();
    let had = state.stream();
    let added = rendered(false, history(state, steps));
    law_deliveries_in_arrival_order(state, steps);
    lemma_history_accepts_samples(state, steps);
    lemma_rendered_without_notice(history(state, steps));
    assert forall|i: int| 0 <= i < (had + added).len() implies !is_notice(
        #[trigger] (had + added)[i],
    ) by {
        if i >= had.len() {
            assert((had + added)[i] == added[i - had.len()]);
        } else {
            assert((had + added)[i] == had[i]);
        }
    }
    assert forall|i: int| 0 <= i < got.len() implies !is_notice(#[trigger] got[i]) by {
        assert((got + left)[i] == got[i]);
    }
    assert forall|i: int| 0 <= i < left.len() implies !is_notice(#[trigger] left[i]) by {
        assert((got + left)[got.len() + i] == left[i]);
    }
}

/// A history of accepted samples and poll failures amounts to no notice.
proof fn lemma_rendered_without_notice<E, S>(arrivals: Seq<Arrival<E, S>>)
    requires
        forall|i: int| 0 <= i < arrivals.len() ==> !(#[trigger] arrivals[i] is Omitted),
        forall|i: int|
            0 <= i < arrivals.len() ==> ((#[trigger] arrivals[i]) matches Arrival::Accepted(delivery)
                ==> crate::collector::is_sample(delivery)),
    ensures
        forall|i: int|
            0 <= i < rendered(false, arrivals).len() ==> !is_notice(
                #[trigger] rendered(false, arrivals)[i],
            ),
    decreases arrivals.len(),
{
    if arrivals.len() > 0 {
        let rest = arrivals.drop_first();
        assert forall|i: int| 0 <= i < rest.len() implies !(#[trigger] rest[i] is Omitted) && (
        rest[i] matches Arrival::Accepted(delivery) ==> crate::collector::is_sample(delivery)) by {
            assert(rest[i] == arrivals[i + 1]);
        }
        lemma_rendered_without_notice(rest);
        assert(!(arrivals[0] is Omitted));
        let all = rendered(false, arrivals);
        let later = rendered(false, rest);
        assert forall|i: int| 0 <= i < all.len() implies !is_notice(#[trigger] all[i]) by {
            if i > 0 {
                assert(all[i] == later[i - 1]);
            }
        }
    }
}

/// An omission is announced: after a sample was omitted, whatever the consumer
/// does meanwhile, the next accepted sample comes with the notice directly
/// before it.
pub proof fn law_omission_is_announced<E, S>(
    state: CollectorView<E, S>,
    omitted: Result<E, S>,
    receives: nat,
    decoded: Result<E, S>,
)
    requires
        state.wf(),
        state.running,
        !state.worker_gone(),
        !state.queue.entries.has_room(),
        after_receives(state.after_sample(omitted), receives).queue.entries.has_room(),
    ensures
        ({
            let before = after_receives(state.after_sample(omitted), receives);
            before.after_sample(decoded).stream() == before.stream() + seq![
                Err(crate::error::omission_notice()),
                crate::delivery::delivery_of(decoded),
            ]
        }),
{
    let omitting = state.after_sample(omitted);
    let before = after_receives(omitting, receives);
    law_step_keeps_invariant(state, Step::Sample(omitted));
    lemma_after_receives(omitting, receives);
    lemma_after_receives_keeps(omitting, receives);
    lemma_accepted_stream(before, decoded);
    assert(notice_if(true) + seq![crate::delivery::delivery_of(decoded)] == seq![
        Err(crate::error::omission_notice()),
        crate::delivery::delivery_of(decoded),
    ]);
}

/// Receives change neither the worker's stage nor what it has noted.
proof fn lemma_after_receives_keeps<E, S>(state: CollectorView<E, S>, count: nat)
    ensures
        after_receives(state, count).running == state.running,
        after_receives(state, count).stage == state.stage,
        after_receives(state, count).queue.output_full_pending == state.queue.output_full_pending,
    decreases count,
{
    if count > 0 {
        lemma_after_receives_keeps(state, (count - 1) as nat);
    }
}

/// Receiving within a time limit differs from receiving without waiting only in
/// how it says that there is nothing: what one finds, the other finds too.
pub proof fn law_receives_agree<E, S>(found: Option<Delivery<E, S>>)
    ensures
        ({
            let tried = crate::collector::try_receive_result(found);
            let waited = crate::collector::receive_timeout_result(found);
            &&& forall|event: E| tried == Ok::<_, TryReceiveError<S>>(event) <==> waited == Ok::<
                _,
                ReceiveTimeoutError<S>,
            >(event)
            &&& forall|error: CollectorReceiveError<S>|
                tried == Err::<E, _>(TryReceiveError::Collector(error)) <==> waited == Err::<E, _>(
                    ReceiveTimeoutError::Collector(error),
                )
            &&& tried == Err::<E, _>(TryReceiveError::<S>::Empty) <==> waited == Err::<E, _>(
                ReceiveTimeoutError::<S>::Timeout,
            )
        }),
{
}

/// Whether every notice of a stream is directly followed by a sample or a poll
/// failure.
pub open spec fn coalesced<E, S>(stream: Seq<Delivery<E, S>>) -> bool {
    forall|i: int|
        0 <= i < stream.len() && is_notice(#[trigger] stream[i]) ==> i + 1 < stream.len() && (
        crate::collector::is_sample(stream[i + 1]) || is_poll_failure(stream[i + 1]))
}

/// What a history amounts to has its notices coalesced.
proof fn lemma_rendered_coalesced<E, S>(omitted: bool, arrivals: Seq<Arrival<E, S>>)
    requires
        forall|i: int|
            0 <= i < arrivals.len() ==> ((#[trigger] arrivals[i]) matches Arrival::Accepted(delivery)
                ==> crate::collector::is_sample(delivery)),
    ensures
        coalesced(rendered(omitted, arrivals)),
    decreases arrivals.len(),
{
    if arrivals.len() > 0 {
        let rest = arrivals.drop_first();
        assert forall|i: int| 0 <= i < rest.len() implies ((
        #[trigger] rest[i]) matches Arrival::Accepted(delivery) ==> crate::collector::is_sample(
            delivery,
        )) by {
            assert(rest[i] == arrivals[i + 1]);
        }
        let notice = notice_if::<E, S>(omitted);
        match arrivals[0] {
            Arrival::Accepted(delivery) => {
                assert(crate::collector::is_sample(delivery));
                lemma_rendered_coalesced(false, rest);
                lemma_coalesced_add(notice + seq![delivery], rendered(false, rest));
            },
            Arrival::Omitted => {
                lemma_rendered_coalesced(true, rest);
            },
            Arrival::PollFailed(source) => {
                let failure: Delivery<E, S> = Err(crate::collector::poll_failure(source));
                lemma_rendered_coalesced(omitted, rest);
                lemma_coalesced_add(notice + seq![failure], rendered(omitted, rest));
            },
        }
    }
}

/// Two streams in a row have their notices coalesced if each has.
proof fn lemma_coalesced_add<E, S>(first: Seq<Delivery<E, S>>, second: Seq<Delivery<E, S>>)
    requires
        coalesced(first),
        coalesced(second),
    ensures
        coalesced(first + second),
{
    let all = first + second;
    assert forall|i: int| 0 <= i < all.len() && is_notice(#[trigger] all[i]) implies i + 1
        < all.len() && (crate::collector::is_sample(all[i + 1]) || is_poll_failure(all[i + 1])) by {
        if i < first.len() {
            assert(all[i] == first[i]);
            assert(all[i + 1] == first[i + 1]);
        } else {
            let j = i - first.len();
            assert(all[i] == second[j]);
            assert(all[i + 1] == second[j + 1]);
        }
    }
}

/// Notices are coalesced over any run: in what the consumer has received and has
/// still to receive, a notice is always directly followed by the sample or the
/// poll failure that it was returned before.
pub proof fn law_notices_are_coalesced_over_runs<E, S>(
    state: CollectorView<E, S>,
    steps: Seq<Step<E, S>>,
)
    requires
        state.wf(),
        can_run(state, steps),
    ensures
        coalesced(received(state, steps) + run(state, steps).stream()),
{
    law_notices_are_coalesced(state);
    law_deliveries_in_arrival_order(state, steps);
    lemma_history_accepts_samples(state, steps);
    lemma_rendered_coalesced(state.queue.output_full_pending, history(state, steps));
    lemma_coalesced_add(
        state.stream(),
        rendered(state.queue.output_full_pending, history(state, steps)),
    );
}

/// Shutdown is final: over any run after it was requested, nothing is accepted,
/// omitted or reported any more.
pub proof fn law_nothing_arrives_after_shutdown<E, S>(
    state: CollectorView<E, S>,
    steps: Seq<Step<E, S>>,
)
    requires
        !state.running,
    ensures
        !run(state, steps).running,
        history(state, steps) == Seq::<Arrival<E, S>>::empty(),
    decreases steps.len(),
{
    if steps.len() > 0 {
        law_nothing_arrives_after_shutdown(after(state, steps[0]), steps.drop_first());
    }
}

/// Shutdown: once it is requested, samples change nothing, the poll that the
/// worker is in is its last, and a failure of that poll is not reported.
pub proof fn law_shutdown_ends_polling<E, S>(
    state: CollectorView<E, S>,
    decoded: Result<E, S>,
    outcome: Result<(), S>,
)
    requires
        state.wf(),
        state.stage is Poll,
    ensures
        ({
            let stopping = state.after_shutdown();
            &&& stopping.after_sample(decoded) == stopping
            &&& stopping.after_step(outcome).stage is Finished
            &&& stopping.after_step(outcome).stream() == state.stream()
        }),
{
}

/// Whether a failure has a source exactly where one is promised: a malformed
/// sample keeps the decoder's error and a poll failure the polling error, and no
/// other failure has one.
pub open spec fn is_sourced<E, S>(delivery: Delivery<E, S>) -> bool {
    delivery matches Err(error) ==> (error.reason() is Source <==> (error.failure()
        == CollectorReceiveErrorKind::MalformedSample || error.failure()
        == CollectorReceiveErrorKind::PollFailure))
}

/// What a receive finds, and all that there is to receive, has a source exactly
/// where one is promised.
pub proof fn law_failures_keep_their_source<E, S>(state: CollectorView<E, S>)
    requires
        state.wf(),
    ensures
        forall|i: int| 0 <= i < state.stream().len() ==> is_sourced(#[trigger] state.stream()[i]),
        state.next_delivery() matches Some(delivery) ==> is_sourced(delivery),
{
    lemma_stream_positions(state);
    assert forall|i: int| 0 <= i < state.stream().len() implies is_sourced(
        #[trigger] state.stream()[i],
    ) by {
        assert(holds_delivery(state, i));
    }
}

/// Over any run, all that the consumer receives has a source exactly where one is
/// promised.
pub proof fn law_received_failures_keep_their_source<E, S>(
    state: CollectorView<E, S>,
    steps: Seq<Step<E, S>>,
)
    requires
        state.wf(),
        can_run(state, steps),
    ensures
        forall|i: int|
            0 <= i < received(state, steps).len() ==> is_sourced(
                #[trigger] received(state, steps)[i],
            ),
    decreases steps.len(),
{
    if steps.len() > 0 {
        let next = after(state, steps[0]);
        let first = taken(state, steps[0]);
        let later = received(next, steps.drop_first());
        law_failures_keep_their_source(state);
        law_step_keeps_invariant(state, steps[0]);
        law_received_failures_keep_their_source(next, steps.drop_first());
        assert forall|i: int| 0 <= i < received(state, steps).len() implies is_sourced(
            #[trigger] received(state, steps)[i],
        ) by {
            if i >= first.len() {
                assert(received(state, steps)[i] == later[i - first.len()]);
            }
        }
    }
}

/// The setup stages, in order.
pub open spec fn setup_stages() -> Seq<WorkerStage> {
    seq![
        WorkerStage::Open,
        WorkerStage::Load,
        WorkerStage::Attach,
        WorkerStage::AddRing,
        WorkerStage::BuildRing,
    ]
}

/// The outcomes of the worker's stages in a run, in order.
pub open spec fn outcomes_of<E, S>(steps: Seq<Step<E, S>>) -> Seq<Result<(), S>>
    decreases steps.len(),
{
    if steps.len() == 0 {
        Seq::empty()
    } else {
        match steps[0] {
            Step::Advance(outcome) => seq![outcome] + outcomes_of(steps.drop_first()),
            _ => outcomes_of(steps.drop_first()),
        }
    }
}

/// Whether the first `count` outcomes are successes.
pub open spec fn succeeded<S>(outcomes: Seq<Result<(), S>>, count: int) -> bool {
    count <= outcomes.len() && forall|i: int| 0 <= i < count ==> #[trigger] outcomes[i] is Ok
}

/// The startup report that a step takes.
pub open spec fn report_taken<E, S>(state: CollectorView<E, S>, step: Step<E, S>) -> Seq<
    StartupResult<S>,
> {
    if step is TakeStartup && state.startup.items.len() > 0 {
        seq![state.startup.items[0]]
    } else {
        Seq::empty()
    }
}

/// The startup reports of a run: those that the consumer has taken, and those
/// that it could still take.
pub open spec fn reports<E, S>(state: CollectorView<E, S>, steps: Seq<Step<E, S>>) -> Seq<
    StartupResult<S>,
>
    decreases steps.len(),
{
    if steps.len() == 0 {
        state.startup.items
    } else {
        report_taken(state, steps[0]) + reports(after(state, steps[0]), steps.drop_first())
    }
}

/// The report of a setup stage that failed.
pub open spec fn failure_report<S>(stage: WorkerStage, source: S) -> StartupResult<S> {
    Err(CollectorStartError::of(stage.failure_kind(), ErrorDetail::Source(source)))
}

/// Once the worker has left the setup stages, it reports nothing more, and once
/// it has finished, it does nothing more.
pub(crate) proof fn lemma_setup_left<E, S>(state: CollectorView<E, S>, steps: Seq<Step<E, S>>)
    requires
        !state.stage.is_setup(),
    ensures
        reports(state, steps) == state.startup.items,
        !run(state, steps).stage.is_setup(),
        state.stage is Finished ==> run(state, steps).stage is Finished,
    decreases steps.len(),
{
    if steps.len() > 0 {
        let next = after(state, steps[0]);
        lemma_setup_left(next, steps.drop_first());
        assert(report_taken(state, steps[0]) + next.startup.items == state.startup.items);
    }
}

/// Over any run, the worker makes at most one startup report.
pub proof fn law_at_most_one_startup_report<E, S>(
    state: CollectorView<E, S>,
    steps: Seq<Step<E, S>>,
)
    requires
        state.wf(),
        can_run(state, steps),
    ensures
        reports(state, steps).len() <= 1,
    decreases steps.len(),
{
    if !state.stage.is_setup() {
        lemma_setup_left(state, steps);
    } else if steps.len() > 0 {
        law_step_keeps_invariant(state, steps[0]);
        law_at_most_one_startup_report(after(state, steps[0]), steps.drop_first());
    }
}

/// Over any run, every startup failure that the worker reports is that of a setup
/// stage, under the kind of such a stage, and keeps its source.
pub proof fn law_startup_failures_keep_their_source<E, S>(
    state: CollectorView<E, S>,
    steps: Seq<Step<E, S>>,
)
    requires
        state.wf(),
        can_run(state, steps),
    ensures
        forall|i: int|
            0 <= i < reports(state, steps).len() ==> crate::collector::is_report(
                #[trigger] reports(state, steps)[i],
            ),
    decreases steps.len(),
{
    if steps.len() > 0 {
        let next = after(state, steps[0]);
        let first = report_taken(state, steps[0]);
        let later = reports(next, steps.drop_first());
        law_step_keeps_invariant(state, steps[0]);
        law_startup_failures_keep_their_source(next, steps.drop_first());
        assert forall|i: int|
            0 <= i < reports(state, steps).len() implies crate::collector::is_report(
            #[trigger] reports(state, steps)[i],
        ) by {
            if i >= first.len() {
                assert(reports(state, steps)[i] == later[i - first.len()]);
            }
        }
    }
}

/// A setup stage that failed is reported once, under its kind and with its
/// source, if the report is awaited, and whatever happens then, the worker never
/// polls.
pub proof fn law_failed_stage_is_reported_and_final<E, S>(
    state: CollectorView<E, S>,
    source: S,
    steps: Seq<Step<E, S>>,
)
    requires
        state.wf(),
        state.stage.is_setup(),
        can_run(state.after_step(Err(source)), steps),
    ensures
        reports(state.after_step(Err(source)), steps) == if state.startup.receiver_open {
            seq![failure_report(state.stage, source)]
        } else {
            Seq::empty()
        },
        run(state.after_step(Err(source)), steps).stage is Finished,
{
    let failed = state.after_step(Err(source));
    lemma_setup_left(failed, steps);
    assert(failed.startup.items == if state.startup.receiver_open {
        seq![failure_report(state.stage, source)]
    } else {
        Seq::empty()
    });
}

/// A worker whose startup report is no longer awaited when it is set up finishes
/// without a report, and whatever happens then, it never polls.
pub proof fn law_unawaited_start_finishes<E, S>(
    state: CollectorView<E, S>,
    steps: Seq<Step<E, S>>,
)
    requires
        state.wf(),
        state.stage is BuildRing,
        !state.startup.receiver_open,
        can_run(state.after_step(Ok(())), steps),
    ensures
        reports(state.after_step(Ok(())), steps) == Seq::<StartupResult<S>>::empty(),
        run(state.after_step(Ok(())), steps).stage is Finished,
        state.after_step(Ok(())).stream() == state.stream(),
{
    let set_up = state.after_step(Ok(()));
    lemma_setup_left(set_up, steps);
    assert(set_up.startup.items == Seq::<StartupResult<S>>::empty());
}

/// Whether the worker stays and its startup report stays awaited, over a run.
pub open spec fn is_uncut<E, S>(steps: Seq<Step<E, S>>) -> bool {
    forall|i: int|
        0 <= i < steps.len() ==> !(#[trigger] steps[i] is WorkerExit) && !(steps[i]
            is CloseStartup)
}

/// Whether a run that begins at the given setup stage, with these outcomes of the
/// worker's stages, has made these reports and led to this stage.
pub open spec fn is_startup<S>(
    at: int,
    outcomes: Seq<Result<(), S>>,
    made: Seq<StartupResult<S>>,
    stage: WorkerStage,
) -> bool {
    let left = setup_stages().len() - at;
    &&& succeeded(outcomes, outcomes.len() as int) && outcomes.len() < left ==> {
        &&& made == Seq::<StartupResult<S>>::empty()
        &&& stage == setup_stages()[at + outcomes.len()]
    }
    &&& succeeded(outcomes, left) ==> {
        &&& made == seq![Ok::<(), CollectorStartError<S>>(())]
        &&& !stage.is_setup()
    }
    &&& forall|k: int|
        0 <= k < left && k < outcomes.len() && succeeded(outcomes, k) && #[trigger] outcomes[k]
            is Err ==> {
            &&& made == seq![failure_report(setup_stages()[at + k], outcomes[k]->Err_0)]
            &&& stage is Finished
        }
}

/// What a run from the given setup stage on reports.
proof fn lemma_startup_from<E, S>(state: CollectorView<E, S>, at: int, steps: Seq<Step<E, S>>)
    requires
        0 <= at < setup_stages().len(),
        state.stage == setup_stages()[at],
        state.startup.items.len() == 0,
        state.startup.receiver_open,
        is_uncut(steps),
    ensures
        is_startup(at, outcomes_of(steps), reports(state, steps), run(state, steps).stage),
    decreases steps.len(),
{
    let outcomes = outcomes_of(steps);
    let stages = setup_stages();
    if steps.len() == 0 {
        assert(state.startup.items == Seq::<StartupResult<S>>::empty());
    } else {
        let next = after(state, steps[0]);
        let rest = steps.drop_first();
        let later = outcomes_of(rest);
        assert(!(steps[0] is WorkerExit) && !(steps[0] is CloseStartup));
        assert(is_uncut(rest)) by {
            assert forall|i: int| 0 <= i < rest.len() implies !(#[trigger] rest[i] is WorkerExit)
                && !(rest[i] is CloseStartup) by {
                assert(rest[i] == steps[i + 1]);
            }
        }
        assert(report_taken(state, steps[0]) + reports(next, rest) == reports(next, rest));
        match steps[0] {
            Step::Advance(outcome) => {
                assert(outcomes == seq![outcome] + later);
                assert(outcomes[0] == outcome);
                assert(forall|i: int|
                    0 < i < outcomes.len() ==> #[trigger] outcomes[i] == later[i - 1]);
                if outcome is Ok && at + 1 < stages.len() {
                    lemma_startup_from(next, at + 1, rest);
                    lemma_startup_step(at, outcome, later, reports(next, rest), run(next, rest).stage);
                } else {
                    lemma_setup_left(next, rest);
                    if outcome is Err {
                        assert(next.startup.items == seq![
                            failure_report(stages[at], outcome->Err_0),
                        ]);
                    } else {
                        assert(next.startup.items == seq![Ok::<(), CollectorStartError<S>>(())]);
                    }
                }
            },
            _ => {
                lemma_startup_from(next, at, rest);
            },
        }
    }
}

/// One more success before a startup from the stage after.
proof fn lemma_startup_step<S>(
    at: int,
    outcome: Result<(), S>,
    later: Seq<Result<(), S>>,
    made: Seq<StartupResult<S>>,
    stage: WorkerStage,
)
    requires
        0 <= at,
        at + 1 < setup_stages().len(),
        outcome is Ok,
        is_startup(at + 1, later, made, stage),
    ensures
        is_startup(at, seq![outcome] + later, made, stage),
{
    let all = seq![outcome] + later;
    let left = setup_stages().len() - at;
    assert(forall|i: int| 0 <= i < later.len() ==> #[trigger] later[i] == all[i + 1]);
    if succeeded(all, all.len() as int) && all.len() < left {
        assert(succeeded(later, later.len() as int));
    }
    if succeeded(all, left) {
        assert(succeeded(later, left - 1));
    }
    assert forall|k: int|
        0 <= k < left && k < all.len() && succeeded(all, k) && #[trigger] all[k] is Err implies made
        == seq![failure_report(setup_stages()[at + k], all[k]->Err_0)] && stage is Finished by {
        assert(k > 0);
        assert(later[k - 1] == all[k]);
        assert(succeeded(later, k - 1));
    }
}

/// Over any run in which the worker stays and its report stays awaited, the
/// worker takes the setup stages in order, and reports once. While all of them
/// so far have succeeded and some are left, it has not reported. It reports that
/// it started when all five have succeeded, and else the failure of the first
/// stage that did not, under that stage's kind and with its source, and then
/// finishes.
pub proof fn law_startup_report<E, S>(capacity: nat, steps: Seq<Step<E, S>>)
    requires
        0 < capacity,
        is_uncut(steps),
    ensures
        is_startup(
            0,
            outcomes_of(steps),
            reports(CollectorView::<E, S>::initial(capacity), steps),
            run(CollectorView::<E, S>::initial(capacity), steps).stage,
        ),
{
    lemma_startup_from(CollectorView::<E, S>::initial(capacity), 0, steps);
}

/// From the given setup stage on, success is reported only if that stage and all
/// later ones succeeded.
proof fn lemma_started_from<E, S>(state: CollectorView<E, S>, at: int, steps: Seq<Step<E, S>>)
    requires
        0 <= at < setup_stages().len(),
        state.stage == setup_stages()[at],
        state.startup.items.len() == 0,
        reports(state, steps) == seq![Ok::<(), CollectorStartError<S>>(())],
    ensures
        succeeded(outcomes_of(steps), setup_stages().len() - at),
    decreases steps.len(),
{
    if steps.len() > 0 {
        let next = after(state, steps[0]);
        let rest = steps.drop_first();
        let later = outcomes_of(rest);
        assert(report_taken(state, steps[0]) + reports(next, rest) == reports(next, rest));
        if next.stage.is_setup() {
            if let Step::Advance(outcome) = steps[0] {
                lemma_started_from(next, at + 1, rest);
                let all = outcomes_of(steps);
                assert(all == seq![outcome] + later);
                assert forall|i: int| 0 <= i < setup_stages().len() - at implies #[trigger] all[i]
                    is Ok by {
                    if i > 0 {
                        assert(all[i] == later[i - 1]);
                    }
                }
            } else {
                lemma_started_from(next, at, rest);
            }
        } else {
            lemma_setup_left(next, rest);
            assert(next.startup.items.len() == 1 && next.startup.items[0] is Ok);
            if let Step::Advance(outcome) = steps[0] {
                assert(outcomes_of(steps) == seq![outcome] + later);
            }
        }
    }
}

/// Over any run, whatever else happens meanwhile, the worker has reported that it
/// started only if it has opened and loaded the BPF object, attached the
/// programs, and set up the ring buffer. Where the worker stays and its report
/// stays awaited, it then has.
pub proof fn law_started_iff_all_stages_succeeded<E, S>(capacity: nat, steps: Seq<Step<E, S>>)
    requires
        0 < capacity,
    ensures
        ({
            let started = reports(CollectorView::<E, S>::initial(capacity), steps) == seq![
                Ok::<(), CollectorStartError<S>>(()),
            ];
            let all = succeeded(outcomes_of(steps), setup_stages().len() as int);
            &&& started ==> all
            &&& is_uncut(steps) && all ==> started
        }),
{
    let state = CollectorView::<E, S>::initial(capacity);
    if reports(state, steps) == seq![Ok::<(), CollectorStartError<S>>(())] {
        lemma_started_from(state, 0, steps);
    }
    if is_uncut(steps) {
        law_startup_report::<E, S>(capacity, steps);
    }
}

} // verus!
