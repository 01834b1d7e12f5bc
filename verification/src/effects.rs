//! What each operation is for: how the parts of a collector's state and the
//! results of its calls depend on what was asked of it, and what no operation may
//! touch.
//!
//! These laws speak of the parts of the state themselves: the items of each
//! channel, the flags, the stage.
use crate::channel::ChannelView;
use crate::collector::{CollectorView, StartupResult};
use crate::delivery::{Delivery, DeliveryEntry, DeliveryQueueView};
use crate::error::{
    CollectorReceiveError, CollectorReceiveErrorKind, CollectorStartErrorKind, ErrorDetail,
    ReceiveTimeoutError, TryReceiveError,
};
use crate::laws::{Arrival, Step};
use crate::worker::WorkerStage;
use vstd::prelude::*;

verus! {

// ---------------------------------------------------------------------------
// Channels
// ---------------------------------------------------------------------------

/// A new channel is empty, has the capacity that was asked for, whatever it is,
/// and both its sides are open.
pub proof fn law_new_channel<T>(capacity: nat)
    ensures
        ChannelView::<T>::empty(capacity).items == Seq::<T>::empty(),
        ChannelView::<T>::empty(capacity).capacity == capacity,
        ChannelView::<T>::empty(capacity).sender_open,
        ChannelView::<T>::empty(capacity).receiver_open,
{
}

/// A channel with an open receiving side has room exactly while it holds fewer
/// items than its capacity. Sending puts an item behind all others and receiving
/// takes the one before all others; neither changes another item, the capacity
/// or the sides.
pub proof fn law_channel_is_first_in_first_out<T>(channel: ChannelView<T>, item: T)
    ensures
        channel.has_room() <==> channel.receiver_open && channel.items.len() < channel.capacity,
        channel.with_last(item).items.len() == channel.items.len() + 1,
        channel.with_last(item).items.last() == item,
        channel.with_last(item).items.drop_last() == channel.items,
        channel.with_last(item).capacity == channel.capacity,
        channel.with_last(item).sender_open == channel.sender_open,
        channel.with_last(item).receiver_open == channel.receiver_open,
        channel.items.len() > 0 ==> seq![channel.items[0]] + channel.without_first().items
            == channel.items,
        channel.without_first().capacity == channel.capacity,
        channel.without_first().sender_open == channel.sender_open,
        channel.without_first().receiver_open == channel.receiver_open,
        channel.items.len() == 0 ==> channel.with_last(item).without_first() == channel,
        channel.items.len() > 0 ==> channel.with_last(item).without_first()
            == channel.without_first().with_last(item),
{
    assert(channel.with_last(item).items.drop_last() == channel.items);
    if channel.items.len() > 0 {
        assert(seq![channel.items[0]] + channel.without_first().items == channel.items);
        assert(channel.with_last(item).without_first().items
            == channel.without_first().with_last(item).items);
    } else {
        assert(channel.with_last(item).without_first().items == channel.items);
    }
}

/// Closing one side of a channel leaves its items, its capacity and the other
/// side as they are.
pub proof fn law_closing_a_side<T>(channel: ChannelView<T>)
    ensures
        !channel.sender_closed().sender_open,
        channel.sender_closed().items == channel.items,
        channel.sender_closed().capacity == channel.capacity,
        channel.sender_closed().receiver_open == channel.receiver_open,
        !channel.receiver_closed().receiver_open,
        channel.receiver_closed().items == channel.items,
        channel.receiver_closed().capacity == channel.capacity,
        channel.receiver_closed().sender_open == channel.sender_open,
{
}

// ---------------------------------------------------------------------------
// The delivery queue
// ---------------------------------------------------------------------------

/// A decoded event is delivered as it is, and a decoding error as a malformed
/// sample with that error as its source.
pub proof fn law_delivery_of_a_sample<E, S>(decoded: Result<E, S>)
    ensures
        forall|event: E| decoded == Ok::<E, S>(event) <==> crate::delivery::delivery_of(decoded)
            == Ok::<E, CollectorReceiveError<S>>(event),
        decoded matches Err(source) ==> {
            &&& crate::delivery::delivery_of(decoded) matches Err(error)
            &&& error.failure() == CollectorReceiveErrorKind::MalformedSample
            &&& error.reason() == ErrorDetail::Source(source)
        },
{
}

/// In a queue that is received from, a sample that finds fewer entries than the
/// capacity becomes the last entry, marked exactly if others were omitted before
/// it, and settles that; one that does not is omitted, and that is noted. No other
/// entry changes, and neither does the capacity or a side.
pub proof fn law_queue_takes_or_notes<E, S>(queue: DeliveryQueueView<E, S>, decoded: Result<E, S>)
    requires
        queue.entries.receiver_open,
    ensures
        ({
            let next = queue.after_sample(decoded);
            &&& next.entries.capacity == queue.entries.capacity
            &&& next.entries.sender_open == queue.entries.sender_open
            &&& next.entries.receiver_open == queue.entries.receiver_open
            &&& if queue.entries.items.len() < queue.entries.capacity {
                &&& next.entries.items.len() == queue.entries.items.len() + 1
                &&& next.entries.items.drop_last() == queue.entries.items
                &&& next.entries.items.last().delivery == crate::delivery::delivery_of(decoded)
                &&& next.entries.items.last().output_full_before == queue.output_full_pending
                &&& !next.output_full_pending
            } else {
                &&& next.entries.items == queue.entries.items
                &&& next.output_full_pending
            }
        }),
{
    let next = queue.after_sample(decoded);
    if queue.entries.items.len() < queue.entries.capacity {
        assert(next.entries.items.drop_last() == queue.entries.items);
    }
}

// ---------------------------------------------------------------------------
// The collector, step by step
// ---------------------------------------------------------------------------

/// A new collector holds as many entries as were asked for, whatever their
/// number; its queue is empty and owes no notice; it runs, awaits its startup
/// report, and its worker has everything before it.
pub proof fn law_new_collector<E, S>(capacity: nat)
    ensures
        ({
            let state = CollectorView::<E, S>::initial(capacity);
            &&& state.queue.entries.capacity == capacity
            &&& state.queue.entries.items == Seq::<DeliveryEntry<E, S>>::empty()
            &&& state.queue.entries.sender_open
            &&& state.queue.entries.receiver_open
            &&& !state.queue.output_full_pending
            &&& state.pending_delivery is None
            &&& state.terminal.items == Seq::<CollectorReceiveError<S>>::empty()
            &&& state.terminal.receiver_open
            &&& state.startup.items == Seq::<StartupResult<S>>::empty()
            &&& state.startup.receiver_open
            &&& state.running
            &&& state.stage == WorkerStage::Open
            &&& state.stream() == Seq::<Delivery<E, S>>::empty()
            &&& 0 < capacity ==> state.wf()
        }),
{
    let state = CollectorView::<E, S>::initial(capacity);
    assert(state.stream() == Seq::<Delivery<E, S>>::empty());
}

/// What no step touches but the one that is for it. Only a request for shutdown
/// ends running. Only the worker's own outcomes and its exit change its stage.
/// Only samples and receives change the queued entries, only samples the pending
/// notice, only receives the pending delivery. Nothing changes a capacity, and
/// only ceasing to await the report closes a receiving side. The sending sides
/// are open exactly until the worker has finished.
pub proof fn law_steps_keep_to_their_part<E, S>(state: CollectorView<E, S>, step: Step<E, S>)
    requires
        state.wf(),
    ensures
        ({
            let next = crate::laws::after(state, step);
            &&& next.running == (state.running && !(step is Shutdown))
            &&& !(step is Advance) && !(step is WorkerExit) ==> next.stage == state.stage
            &&& !(step is Sample) && !(step is Receive) ==> next.queue.entries.items
                == state.queue.entries.items
            &&& !(step is Sample) ==> next.queue.output_full_pending
                == state.queue.output_full_pending
            &&& !(step is Receive) ==> next.pending_delivery == state.pending_delivery
            &&& !(step is Receive) && !(step is Advance) ==> next.terminal.items
                == state.terminal.items
            &&& !(step is TakeStartup) && !(step is Advance) ==> next.startup.items
                == state.startup.items
            &&& next.queue.entries.capacity == state.queue.entries.capacity
            &&& next.terminal.capacity == state.terminal.capacity
            &&& next.startup.capacity == state.startup.capacity
            &&& next.queue.entries.receiver_open
            &&& next.terminal.receiver_open
            &&& next.startup.receiver_open == (state.startup.receiver_open && !(step
                is CloseStartup))
            &&& next.queue.entries.sender_open == !(next.stage is Finished)
            &&& next.terminal.sender_open == !(next.stage is Finished)
            &&& next.startup.sender_open == !(next.stage is Finished)
        }),
{
}

/// A sample changes nothing but the queue, and that only while the collector
/// runs: then it is accepted if the queue holds fewer entries than its capacity,
/// and else omitted.
pub proof fn law_sample_changes_only_the_queue<E, S>(
    state: CollectorView<E, S>,
    decoded: Result<E, S>,
)
    requires
        state.wf(),
    ensures
        ({
            let next = state.after_sample(decoded);
            &&& next.running == state.running
            &&& next.stage == state.stage
            &&& next.pending_delivery == state.pending_delivery
            &&& next.terminal == state.terminal
            &&& next.startup == state.startup
            &&& next.queue.entries.capacity == state.queue.entries.capacity
            &&& next.queue.entries.sender_open == state.queue.entries.sender_open
            &&& next.queue.entries.receiver_open == state.queue.entries.receiver_open
            &&& !state.running ==> next.queue == state.queue
            &&& state.running && state.queue.entries.items.len() < state.queue.entries.capacity
                ==> {
                &&& next.queue.entries.items.len() == state.queue.entries.items.len() + 1
                &&& next.queue.entries.items.drop_last() == state.queue.entries.items
                &&& next.queue.entries.items.last().delivery == crate::delivery::delivery_of(
                    decoded,
                )
                &&& next.queue.entries.items.last().output_full_before
                    == state.queue.output_full_pending
                &&& !next.queue.output_full_pending
            }
            &&& state.running && state.queue.entries.items.len() == state.queue.entries.capacity
                ==> {
                &&& next.queue.entries.items == state.queue.entries.items
                &&& next.queue.output_full_pending
            }
        }),
{
    law_queue_takes_or_notes(state.queue, decoded);
}

/// A receive finds, and takes, the first that there is of: the delivery whose
/// notice went before; the oldest entry, or first the notice before it if it is
/// marked; the oldest terminal error. Where there is none of them, it takes
/// nothing, and finds that the worker has stopped if it has finished, and nothing
/// if it has not. It changes nothing else.
pub proof fn law_receive_takes_the_oldest<E, S>(state: CollectorView<E, S>)
    requires
        state.wf(),
    ensures
        ({
            let found = state.next_delivery();
            let next = state.after_receive();
            let items = state.queue.entries.items;
            let errors = state.terminal.items;
            &&& next.running == state.running
            &&& next.stage == state.stage
            &&& next.startup == state.startup
            &&& next.queue.output_full_pending == state.queue.output_full_pending
            &&& if state.pending_delivery is Some {
                &&& found == state.pending_delivery
                &&& next.pending_delivery is None
                &&& next.queue == state.queue
                &&& next.terminal == state.terminal
            } else if items.len() > 0 {
                &&& seq![items[0]] + next.queue.entries.items == items
                &&& next.terminal == state.terminal
                &&& if items[0].output_full_before {
                    &&& found matches Some(Err(error))
                    &&& error.failure() == CollectorReceiveErrorKind::OutputQueueFull
                    &&& error.reason() == ErrorDetail::<S>::Static(
                        "one or more delivery entries were omitted",
                    )
                    &&& next.pending_delivery == Some(items[0].delivery)
                } else {
                    &&& found == Some(items[0].delivery)
                    &&& next.pending_delivery is None
                }
            } else if errors.len() > 0 {
                &&& found == Some(Err::<E, _>(errors[0]))
                &&& seq![errors[0]] + next.terminal.items == errors
                &&& next.pending_delivery is None
                &&& next.queue == state.queue
            } else {
                &&& next == state
                &&& if state.stage is Finished {
                    &&& found matches Some(Err(error))
                    &&& error.failure() == CollectorReceiveErrorKind::WorkerStop
                    &&& error.reason() == ErrorDetail::<S>::Static(
                        "collector worker is no longer running",
                    )
                } else {
                    found is None
                }
            }
        }),
{
    crate::collector::lemma_after_receive(state);
    let items = state.queue.entries.items;
    let errors = state.terminal.items;
    if state.pending_delivery is None {
        if items.len() > 0 {
            assert(seq![items[0]] + state.after_receive().queue.entries.items == items);
        } else if errors.len() > 0 {
            assert(seq![errors[0]] + state.after_receive().terminal.items == errors);
        } else {
            assert(state.stream() == Seq::<Delivery<E, S>>::empty());
        }
    }
}

/// A receive finds something exactly where one need not wait for it: a delivery
/// is there, or the worker has finished. The worker is gone exactly then.
pub proof fn law_found_where_ready<E, S>(state: CollectorView<E, S>)
    requires
        state.wf(),
    ensures
        state.next_delivery() is Some <==> state.pending_delivery is Some
            || state.queue.entries.items.len() > 0 || state.stage is Finished,
        state.worker_gone() <==> state.stage is Finished,
        state.worker_gone() <==> !state.startup.sender_open,
{
    law_receive_takes_the_oldest(state);
}

/// What a receive returns says what it found: an event exactly where it found
/// that event, a collector error exactly where it found that error, and that
/// there is nothing exactly where it found nothing.
pub proof fn law_receives_return_what_they_find<E, S>(found: Option<Delivery<E, S>>)
    ensures
        forall|event: E|
            crate::collector::try_receive_result(found) == Ok::<E, TryReceiveError<S>>(event)
                <==> found == Some(Ok::<E, CollectorReceiveError<S>>(event)),
        forall|error: CollectorReceiveError<S>|
            crate::collector::try_receive_result(found) == Err::<E, _>(
                TryReceiveError::Collector(error),
            ) <==> found == Some(Err::<E, _>(error)),
        crate::collector::try_receive_result(found) == Err::<E, _>(TryReceiveError::<S>::Empty)
            <==> found is None,
        forall|event: E|
            crate::collector::receive_timeout_result(found) == Ok::<E, ReceiveTimeoutError<S>>(
                event,
            ) <==> found == Some(Ok::<E, CollectorReceiveError<S>>(event)),
        forall|error: CollectorReceiveError<S>|
            crate::collector::receive_timeout_result(found) == Err::<E, _>(
                ReceiveTimeoutError::Collector(error),
            ) <==> found == Some(Err::<E, _>(error)),
        crate::collector::receive_timeout_result(found) == Err::<E, _>(
            ReceiveTimeoutError::<S>::Timeout,
        ) <==> found is None,
{
}

/// A successful poll changes nothing while the collector runs, and finishes the
/// worker, and nothing else, once shutdown was requested.
pub proof fn law_successful_poll<E, S>(state: CollectorView<E, S>)
    requires
        state.wf(),
        state.stage is Poll,
    ensures
        state.running ==> state.after_step(Ok(())) == state,
        !state.running ==> {
            &&& state.after_step(Ok(())).stage is Finished
            &&& state.after_step(Ok(())).terminal.items == state.terminal.items
            &&& state.after_step(Ok(())).startup.items == state.startup.items
            &&& state.after_step(Ok(())).stream() == state.stream()
        },
{
}

/// A failed poll finishes the worker. While the collector runs it leaves, as what
/// ends the stream, the failure with its source, and one notice before it exactly
/// if one is owed; once shutdown was requested it leaves nothing.
pub proof fn law_failed_poll<E, S>(state: CollectorView<E, S>, source: S)
    requires
        state.wf(),
        state.stage is Poll,
    ensures
        ({
            let next = state.after_step(Err(source));
            let errors = next.terminal.items;
            &&& next.stage is Finished
            &&& next.startup.items == state.startup.items
            &&& if state.running {
                &&& errors.len() == (if state.queue.output_full_pending {
                    2nat
                } else {
                    1
                })
                &&& errors.last().failure() == CollectorReceiveErrorKind::PollFailure
                &&& errors.last().reason() == ErrorDetail::Source(source)
                &&& errors.len() == 2 ==> errors[0].failure()
                    == CollectorReceiveErrorKind::OutputQueueFull && errors[0].reason() is Static
            } else {
                errors == state.terminal.items
            }
        }),
{
}

/// A successful setup stage leads to the next: open, load, attach, add the ring,
/// build the ring. After the last, success is the report and the worker polls, or
/// finishes if shutdown was requested; but if the report is not awaited, none is
/// made and the worker finishes.
pub proof fn law_successful_setup_stage<E, S>(state: CollectorView<E, S>)
    requires
        state.wf(),
        state.stage.is_setup(),
    ensures
        ({
            let next = state.after_step(Ok(()));
            &&& next.terminal.items == state.terminal.items
            &&& state.stage is Open ==> next.stage is Load
            &&& state.stage is Load ==> next.stage is Attach
            &&& state.stage is Attach ==> next.stage is AddRing
            &&& state.stage is AddRing ==> next.stage is BuildRing
            &&& !(state.stage is BuildRing) ==> next.startup.items == Seq::<
                StartupResult<S>,
            >::empty()
            &&& state.stage is BuildRing && state.startup.receiver_open ==> {
                &&& next.startup.items.len() == 1
                &&& next.startup.items[0] is Ok
                &&& next.stage == if state.running {
                    WorkerStage::Poll
                } else {
                    WorkerStage::Finished
                }
            }
            &&& state.stage is BuildRing && !state.startup.receiver_open ==> {
                &&& next.startup.items == Seq::<StartupResult<S>>::empty()
                &&& next.stage is Finished
            }
        }),
{
    if !(state.stage is BuildRing) || !state.startup.receiver_open {
        assert(state.after_step(Ok(())).startup.items == Seq::<StartupResult<S>>::empty());
    }
}

/// A failed setup stage finishes the worker, and leaves as the report, if it is
/// awaited, the failure under the kind of that stage and with its source.
pub proof fn law_failed_setup_stage<E, S>(state: CollectorView<E, S>, source: S)
    requires
        state.wf(),
        state.stage.is_setup(),
    ensures
        ({
            let next = state.after_step(Err(source));
            &&& next.stage is Finished
            &&& next.terminal.items == state.terminal.items
            &&& !state.startup.receiver_open ==> next.startup.items.len() == 0
            &&& state.startup.receiver_open ==> {
                &&& next.startup.items.len() == 1
                &&& next.startup.items[0] matches Err(error)
                &&& error.reason() == ErrorDetail::Source(source)
                &&& state.stage is Open ==> error.stage() == CollectorStartErrorKind::Open
                &&& state.stage is Load ==> error.stage() == CollectorStartErrorKind::Load
                &&& state.stage is Attach ==> error.stage() == CollectorStartErrorKind::Attach
                &&& state.stage is AddRing ==> error.stage() == CollectorStartErrorKind::RingSetup
                &&& state.stage is BuildRing ==> error.stage()
                    == CollectorStartErrorKind::RingSetup
            }
        }),
{
}

/// A worker that has finished does nothing more, whatever it is told, and the
/// setup stages are all but polling and having finished.
pub proof fn law_finished_worker_rests<E, S>(
    state: CollectorView<E, S>,
    outcome: Result<(), S>,
    stage: WorkerStage,
)
    requires
        state.stage is Finished,
    ensures
        state.after_step(outcome) == state,
        stage.is_setup() <==> stage is Open || stage is Load || stage is Attach || stage is AddRing
            || stage is BuildRing,
{
}

/// Taking the startup report takes the oldest report, if there is one, and
/// changes nothing else.
pub proof fn law_taking_the_report<E, S>(state: CollectorView<E, S>)
    ensures
        ({
            let next = state.after_startup_taken();
            &&& next.running == state.running
            &&& next.stage == state.stage
            &&& next.queue == state.queue
            &&& next.pending_delivery == state.pending_delivery
            &&& next.terminal == state.terminal
            &&& next.startup.receiver_open == state.startup.receiver_open
            &&& next.startup.sender_open == state.startup.sender_open
            &&& next.startup.capacity == state.startup.capacity
            &&& if state.startup.items.len() > 0 {
                seq![state.startup.items[0]] + next.startup.items == state.startup.items
            } else {
                next.startup.items == state.startup.items
            }
        }),
{
    if state.startup.items.len() > 0 {
        assert(seq![state.startup.items[0]] + state.after_startup_taken().startup.items
            == state.startup.items);
    }
}

/// Ceasing to await the startup report closes its receiving side, and changes
/// nothing else: a collector that runs goes on running.
pub proof fn law_ceasing_to_await_the_report<E, S>(state: CollectorView<E, S>)
    ensures
        ({
            let next = state.after_startup_closed();
            &&& next.running == state.running
            &&& next.stage == state.stage
            &&& next.queue == state.queue
            &&& next.pending_delivery == state.pending_delivery
            &&& next.terminal == state.terminal
            &&& next.stream() == state.stream()
            &&& next.startup.items == state.startup.items
            &&& next.startup.sender_open == state.startup.sender_open
            &&& !next.startup.receiver_open
        }),
{
}

/// Requesting shutdown ends running, and changes nothing else.
pub proof fn law_requesting_shutdown<E, S>(state: CollectorView<E, S>)
    ensures
        ({
            let next = state.after_shutdown();
            &&& !next.running
            &&& next.stage == state.stage
            &&& next.queue == state.queue
            &&& next.pending_delivery == state.pending_delivery
            &&& next.terminal == state.terminal
            &&& next.startup == state.startup
            &&& next.stream() == state.stream()
        }),
{
}

/// A worker that has gone is gone, whatever it was doing: it has finished, all its
/// sending sides are closed, and what there is to receive stays.
pub proof fn law_worker_exit<E, S>(state: CollectorView<E, S>)
    ensures
        ({
            let next = state.after_worker_exit();
            &&& next.worker_gone()
            &&& next.stage is Finished
            &&& !next.queue.entries.sender_open
            &&& !next.terminal.sender_open
            &&& !next.startup.sender_open
            &&& next.queue.entries.items == state.queue.entries.items
            &&& next.queue.output_full_pending == state.queue.output_full_pending
            &&& next.pending_delivery == state.pending_delivery
            &&& next.terminal.items == state.terminal.items
            &&& next.startup.items == state.startup.items
            &&& next.startup.receiver_open == state.startup.receiver_open
            &&& next.running == state.running
            &&& next.stream() == state.stream()
        }),
{
}

/// After the worker has gone, whatever it was doing, receives hand out what there
/// was to receive, in order, and from then on each reports that the worker has
/// stopped.
pub proof fn law_exit_drains_then_stops<E, S>(state: CollectorView<E, S>, count: nat)
    requires
        state.wf(),
    ensures
        ({
            let found = crate::laws::after_receives(
                state.after_worker_exit(),
                count,
            ).next_delivery();
            if count < state.stream().len() {
                found == Some(state.stream()[count as int])
            } else {
                &&& found matches Some(Err(error))
                &&& error.failure() == CollectorReceiveErrorKind::WorkerStop
            }
        }),
{
    law_worker_exit(state);
    crate::laws::law_step_keeps_invariant(state, Step::WorkerExit);
    crate::laws::law_receives_drain_then_stop(state.after_worker_exit(), count);
}

// ---------------------------------------------------------------------------
// Runs
// ---------------------------------------------------------------------------

/// Whether a run has no request for shutdown.
pub open spec fn without_shutdown<E, S>(steps: Seq<Step<E, S>>) -> bool {
    forall|i: int| 0 <= i < steps.len() ==> !(#[trigger] steps[i] is Shutdown)
}

/// Over any run, a collector runs at the end exactly if it ran at the beginning
/// and no step was a request for shutdown.
pub proof fn law_runs_until_shutdown<E, S>(state: CollectorView<E, S>, steps: Seq<Step<E, S>>)
    requires
        state.wf(),
        crate::laws::can_run(state, steps),
    ensures
        crate::laws::run(state, steps).running == (state.running && without_shutdown(steps)),
    decreases steps.len(),
{
    if steps.len() > 0 {
        let next = crate::laws::after(state, steps[0]);
        let rest = steps.drop_first();
        law_steps_keep_to_their_part(state, steps[0]);
        crate::laws::law_step_keeps_invariant(state, steps[0]);
        law_runs_until_shutdown(next, rest);
        lemma_without_shutdown(steps);
    }
}

/// A run is without shutdown if its first step and the rest are.
proof fn lemma_without_shutdown<E, S>(steps: Seq<Step<E, S>>)
    requires
        steps.len() > 0,
    ensures
        without_shutdown(steps) == (!(steps[0] is Shutdown) && without_shutdown(
            steps.drop_first(),
        )),
{
    let rest = steps.drop_first();
    assert forall|i: int| 0 <= i < rest.len() implies #[trigger] rest[i] == steps[i + 1] by {}
    if !(steps[0] is Shutdown) && without_shutdown(rest) {
        assert forall|i: int| 0 <= i < steps.len() implies !(#[trigger] steps[i] is Shutdown) by {
            if i > 0 {
                assert(rest[i - 1] == steps[i]);
            }
        }
    }
    if without_shutdown(steps) {
        assert forall|i: int| 0 <= i < rest.len() implies !(#[trigger] rest[i] is Shutdown) by {
            assert(steps[i + 1] == rest[i]);
        }
    }
}

/// How many samples a run has.
pub open spec fn sample_count<E, S>(steps: Seq<Step<E, S>>) -> nat
    decreases steps.len(),
{
    if steps.len() == 0 {
        0
    } else {
        sample_count(steps.drop_first()) + if steps[0] is Sample {
            1nat
        } else {
            0
        }
    }
}

/// How many samples a history tells of, accepted or omitted.
pub open spec fn accounted_count<E, S>(arrivals: Seq<Arrival<E, S>>) -> nat
    decreases arrivals.len(),
{
    if arrivals.len() == 0 {
        0
    } else {
        accounted_count(arrivals.drop_first()) + if arrivals[0] is PollFailed {
            0nat
        } else {
            1
        }
    }
}

/// The samples that two histories in a row tell of are those of both.
proof fn lemma_accounted_add<E, S>(first: Seq<Arrival<E, S>>, second: Seq<Arrival<E, S>>)
    ensures
        accounted_count(first + second) == accounted_count(first) + accounted_count(second),
    decreases first.len(),
{
    if first.len() == 0 {
        assert(first + second == second);
    } else {
        assert((first + second).drop_first() == first.drop_first() + second);
        lemma_accounted_add(first.drop_first(), second);
    }
}

/// Every sample is accounted for: over any run of a running collector without a
/// request for shutdown, each sample that comes is accepted or omitted, be there
/// ever so many.
pub proof fn law_every_sample_is_accounted_for<E, S>(
    state: CollectorView<E, S>,
    steps: Seq<Step<E, S>>,
)
    requires
        state.wf(),
        state.running,
        crate::laws::can_run(state, steps),
        without_shutdown(steps),
    ensures
        accounted_count(crate::laws::history(state, steps)) == sample_count(steps),
    decreases steps.len(),
{
    if steps.len() > 0 {
        let next = crate::laws::after(state, steps[0]);
        let rest = steps.drop_first();
        let first = crate::laws::arrival(state, steps[0]);
        lemma_without_shutdown(steps);
        law_steps_keep_to_their_part(state, steps[0]);
        crate::laws::law_step_keeps_invariant(state, steps[0]);
        law_every_sample_is_accounted_for(next, rest);
        lemma_accounted_add(first, crate::laws::history(next, rest));
        reveal_with_fuel(accounted_count, 2);
        if first.len() > 0 {
            assert(first.drop_first() == Seq::<Arrival<E, S>>::empty());
        }
    }
}

/// Whether a run neither requests shutdown, nor loses the worker, nor fails at a
/// stage of it.
pub open spec fn is_undisturbed<E, S>(steps: Seq<Step<E, S>>) -> bool {
    forall|i: int|
        0 <= i < steps.len() ==> {
            &&& !(#[trigger] steps[i] is Shutdown)
            &&& !(steps[i] is WorkerExit)
            &&& steps[i] matches Step::Advance(outcome) ==> outcome is Ok
        }
}

/// The rest of an undisturbed run is undisturbed.
proof fn lemma_undisturbed_rest<E, S>(steps: Seq<Step<E, S>>)
    requires
        steps.len() > 0,
        is_undisturbed(steps),
    ensures
        is_undisturbed(steps.drop_first()),
{
    let rest = steps.drop_first();
    assert forall|i: int| 0 <= i < rest.len() implies {
        &&& !(#[trigger] rest[i] is Shutdown)
        &&& !(rest[i] is WorkerExit)
        &&& rest[i] matches Step::Advance(outcome) ==> outcome is Ok
    } by {
        assert(rest[i] == steps[i + 1]);
    }
}

/// The worker of a running collector goes on polling, whatever samples come,
/// whether or not they are omitted, and whatever the consumer receives or awaits:
/// only a failed poll, a request for shutdown or its exit ends that.
pub proof fn law_polls_until_disturbed<E, S>(state: CollectorView<E, S>, steps: Seq<Step<E, S>>)
    requires
        state.wf(),
        state.running,
        state.stage is Poll,
        is_undisturbed(steps),
    ensures
        crate::laws::run(state, steps).running,
        crate::laws::run(state, steps).stage is Poll,
        crate::laws::can_run(state, steps),
    decreases steps.len(),
{
    if steps.len() > 0 {
        let next = crate::laws::after(state, steps[0]);
        lemma_undisturbed_rest(steps);
        assert(!(steps[0] is Shutdown) && !(steps[0] is WorkerExit));
        law_steps_keep_to_their_part(state, steps[0]);
        law_successful_poll(state);
        crate::laws::law_step_keeps_invariant(state, steps[0]);
        law_polls_until_disturbed(next, steps.drop_first());
    }
}

/// A collector that has started runs: over any undisturbed run of a new collector
/// that has reported success, be the report taken and no longer awaited or not,
/// the collector runs and its worker polls, so that a sample that comes next is
/// accepted if there is room.
pub proof fn law_started_collector_runs<E, S>(
    capacity: nat,
    steps: Seq<Step<E, S>>,
    decoded: Result<E, S>,
)
    requires
        0 < capacity,
        is_undisturbed(steps),
        crate::laws::can_run(CollectorView::<E, S>::initial(capacity), steps),
        crate::laws::reports(CollectorView::<E, S>::initial(capacity), steps).len() > 0,
    ensures
        ({
            let state = crate::laws::run(CollectorView::<E, S>::initial(capacity), steps);
            &&& state.running
            &&& state.stage is Poll
            &&& state.queue.entries.capacity == capacity
            &&& state.queue.entries.items.len() < capacity ==> {
                let next = state.after_sample(decoded);
                &&& next.queue.entries.items.len() == state.queue.entries.items.len() + 1
                &&& next.queue.entries.items.last().delivery == crate::delivery::delivery_of(
                    decoded,
                )
                &&& next.running
                &&& next.stage is Poll
            }
        }),
{
    let initial = CollectorView::<E, S>::initial(capacity);
    law_new_collector::<E, S>(capacity);
    lemma_started_runs(initial, steps);
    crate::laws::law_capacity_bounds_queue(initial, steps);
    law_sample_changes_only_the_queue(crate::laws::run(initial, steps), decoded);
}

/// A collector starts whatever its capacity: when all five setup stages have
/// succeeded and the consumer has taken the report and no longer awaits it, the
/// collector runs, its worker polls, and any sample that comes is accepted.
pub proof fn law_start_then_sample<E, S>(capacity: nat, decoded: Result<E, S>)
    requires
        0 < capacity,
    ensures
        ({
            let advance = Step::<E, S>::Advance(Ok(()));
            let start = seq![advance, advance, advance, advance, advance];
            let reported = crate::laws::run(CollectorView::<E, S>::initial(capacity), start);
            let state = reported.after_startup_taken().after_startup_closed();
            let next = state.after_sample(decoded);
            &&& reported.startup.items.len() == 1
            &&& reported.startup.items[0] is Ok
            &&& state.startup.items.len() == 0
            &&& state.running
            &&& state.stage is Poll
            &&& next.running
            &&& next.stage is Poll
            &&& next.queue.entries.items.len() == 1
            &&& next.queue.entries.items[0].delivery == crate::delivery::delivery_of(decoded)
            &&& !next.queue.entries.items[0].output_full_before
        }),
{
    let advance = Step::<E, S>::Advance(Ok(()));
    let start = seq![advance, advance, advance, advance, advance];
    let first = CollectorView::<E, S>::initial(capacity);
    let second = first.after_step(Ok(()));
    let third = second.after_step(Ok(()));
    let fourth = third.after_step(Ok(()));
    let fifth = fourth.after_step(Ok(()));
    let reported = fifth.after_step(Ok(()));
    law_new_collector::<E, S>(capacity);
    assert(crate::laws::run(first, start) == reported) by {
        reveal_with_fuel(crate::laws::run, 6);
        assert(start.drop_first() == seq![advance, advance, advance, advance]);
        assert(start.drop_first().drop_first() == seq![advance, advance, advance]);
        assert(start.drop_first().drop_first().drop_first() == seq![advance, advance]);
        assert(start.drop_first().drop_first().drop_first().drop_first() == seq![advance]);
        assert(start.drop_first().drop_first().drop_first().drop_first().drop_first()
            == Seq::<Step<E, S>>::empty());
    }
    let state = reported.after_startup_taken().after_startup_closed();
    assert(state.wf());
    law_sample_changes_only_the_queue(state, decoded);
}

/// From any setup stage on, an undisturbed run that has made a report leaves the
/// collector running and its worker polling.
proof fn lemma_started_runs<E, S>(state: CollectorView<E, S>, steps: Seq<Step<E, S>>)
    requires
        state.wf(),
        state.running,
        state.stage.is_setup(),
        is_undisturbed(steps),
        crate::laws::can_run(state, steps),
        crate::laws::reports(state, steps).len() > 0,
    ensures
        crate::laws::run(state, steps).running,
        crate::laws::run(state, steps).stage is Poll,
    decreases steps.len(),
{
    if steps.len() > 0 {
        let next = crate::laws::after(state, steps[0]);
        let rest = steps.drop_first();
        lemma_undisturbed_rest(steps);
        assert(!(steps[0] is Shutdown) && !(steps[0] is WorkerExit));
        law_steps_keep_to_their_part(state, steps[0]);
        law_successful_setup_stage(state);
        crate::laws::law_step_keeps_invariant(state, steps[0]);
        assert(crate::laws::reports(state, steps).len() == crate::laws::reports(next, rest).len());
        if next.stage is Poll {
            law_polls_until_disturbed(next, rest);
        } else if next.stage.is_setup() {
            lemma_started_runs(next, rest);
        } else {
            crate::laws::lemma_setup_left(next, rest);
        }
    }
}

/// The state after these samples, with nothing in between.
pub open spec fn after_samples<E, S>(
    state: CollectorView<E, S>,
    samples: Seq<Result<E, S>>,
) -> CollectorView<E, S>
    decreases samples.len(),
{
    if samples.len() == 0 {
        state
    } else {
        after_samples(state, samples.drop_last()).after_sample(samples.last())
    }
}

/// The capacity is what was asked for: of the samples given to a new collector
/// with no receive in between, the first are queued in their order, unmarked, as
/// many as the capacity says and no fewer, and a notice is owed exactly if there
/// were more. The collector runs on.
pub proof fn law_new_collector_takes_its_capacity<E, S>(
    capacity: nat,
    samples: Seq<Result<E, S>>,
)
    requires
        0 < capacity,
    ensures
        ({
            let state = after_samples(CollectorView::<E, S>::initial(capacity), samples);
            let items = state.queue.entries.items;
            &&& state.wf()
            &&& state.running
            &&& state.stage is Open
            &&& state.queue.entries.capacity == capacity
            &&& items.len() == (if samples.len() < capacity {
                samples.len()
            } else {
                capacity
            })
            &&& forall|i: int|
                0 <= i < items.len() ==> (#[trigger] items[i]).delivery
                    == crate::delivery::delivery_of(samples[i]) && !items[i].output_full_before
            &&& state.queue.output_full_pending == (samples.len() > capacity)
        }),
    decreases samples.len(),
{
    law_new_collector::<E, S>(capacity);
    if samples.len() > 0 {
        let earlier = samples.drop_last();
        let before = after_samples(CollectorView::<E, S>::initial(capacity), earlier);
        let state = after_samples(CollectorView::<E, S>::initial(capacity), samples);
        law_new_collector_takes_its_capacity::<E, S>(capacity, earlier);
        law_sample_changes_only_the_queue(before, samples.last());
        crate::laws::law_step_keeps_invariant(before, Step::Sample(samples.last()));
        let items = state.queue.entries.items;
        assert forall|i: int| 0 <= i < items.len() implies (#[trigger] items[i]).delivery
            == crate::delivery::delivery_of(samples[i]) && !items[i].output_full_before by {
            if i < before.queue.entries.items.len() {
                if before.queue.entries.items.len() < capacity {
                    assert(items.drop_last()[i] == items[i]);
                }
                assert(before.queue.entries.items[i] == items[i]);
                assert(earlier[i] == samples[i]);
            }
        }
    }
}

} // verus!
