//! The collector: what its worker and its consumer share, and how each of their
//! steps changes it.
//!
//! A collector has one consumer and a bounded output queue. The worker opens,
//! loads and attaches the BPF programs, sets up the ring buffer, reports that it
//! started, and then polls. Every step of either side is one call here; the
//! waiting, the threads and the kernel calls stay with the caller, who guards
//! the collector with a lock.
use crate::channel::{Channel, ChannelView, TryRecvError};
use crate::delivery::{Delivery, DeliveryEntry, DeliveryQueue, DeliveryQueueView};
use crate::error::{
    output_queue_full, worker_stop, CollectorReceiveError, CollectorReceiveErrorKind,
    CollectorStartError, CollectorStartErrorKind, ErrorDetail, ReceiveTimeoutError,
    TryReceiveError,
};
use crate::worker::WorkerStage;
use vstd::prelude::*;

verus! {

/// How many delivery entries a collector holds unless told otherwise.
pub const DEFAULT_EVENT_CAPACITY: usize = 1024;

/// How many terminal errors a collector holds: an omission notice and a poll
/// failure.
pub const TERMINAL_CAPACITY: usize = 2;

/// What the worker reports once it has started, or failed to.
pub type StartupResult<S> = Result<(), CollectorStartError<S>>;

/// The state of a collector.
#[verifier::ext_equal]
pub struct CollectorView<E, S> {
    /// The queue that the ring-buffer callback fills.
    pub queue: DeliveryQueueView<E, S>,
    /// The delivery whose omission notice was returned before it.
    pub pending_delivery: Option<Delivery<E, S>>,
    /// The errors that ended the collection.
    pub terminal: ChannelView<CollectorReceiveError<S>>,
    /// The startup report.
    pub startup: ChannelView<StartupResult<S>>,
    /// Whether no shutdown has been requested.
    pub running: bool,
    /// What the worker has to do next.
    pub stage: WorkerStage,
}

/// Whether a delivery comes from a sample: an event, or a malformed sample with
/// the decoder's error.
pub open spec fn is_sample<E, S>(delivery: Delivery<E, S>) -> bool {
    delivery matches Err(error) ==> error.failure() == CollectorReceiveErrorKind::MalformedSample
        && error.reason() is Source
}

/// Whether a startup report is a success, or the failure of a setup stage with
/// its source.
pub open spec fn is_report<S>(report: StartupResult<S>) -> bool {
    report matches Err(error) ==> {
        &&& error.reason() is Source
        &&& error.stage() == CollectorStartErrorKind::Open || error.stage()
            == CollectorStartErrorKind::Load || error.stage() == CollectorStartErrorKind::Attach
            || error.stage() == CollectorStartErrorKind::RingSetup
    }
}

/// The poll failure with this source.
pub open spec fn poll_failure<S>(source: S) -> CollectorReceiveError<S> {
    CollectorReceiveError::of(CollectorReceiveErrorKind::PollFailure, ErrorDetail::Source(source))
}

/// The errors that end a collection: the omission notice that no entry carries
/// any more, and the poll failure.
pub open spec fn terminal_errors<S>(omitted: bool, source: S) -> Seq<
    CollectorReceiveError<S>,
> {
    if omitted {
        seq![crate::error::omission_notice(), poll_failure(source)]
    } else {
        seq![poll_failure(source)]
    }
}

impl<E, S> CollectorView<E, S> {
    /// A collector whose worker has yet to do anything.
    pub open spec fn initial(capacity: nat) -> Self {
        CollectorView {
            queue: DeliveryQueueView {
                entries: ChannelView::empty(capacity),
                output_full_pending: false,
            },
            pending_delivery: None,
            terminal: ChannelView::empty(TERMINAL_CAPACITY as nat),
            startup: ChannelView::empty(1),
            running: true,
            stage: WorkerStage::Open,
        }
    }

    /// Whether nothing more comes from the worker: it has finished, or gone
    /// without finishing.
    pub open spec fn worker_gone(self) -> bool {
        !self.queue.entries.sender_open
    }

    /// Whether the state is one that a collector can be in.
    pub open spec fn wf(self) -> bool {
        &&& self.queue.wf()
        &&& self.terminal.wf()
        &&& self.startup.wf()
        &&& self.terminal.capacity == TERMINAL_CAPACITY
        &&& self.startup.capacity == 1
        // The collector holds the receiving sides, the worker the sending sides.
        // Only the startup report may be no longer awaited.
        &&& self.queue.entries.receiver_open
        &&& self.terminal.receiver_open
        &&& self.terminal.sender_open == self.queue.entries.sender_open
        &&& self.startup.sender_open == self.queue.entries.sender_open
        // The worker is gone once it has finished, reports only when it leaves the
        // setup stages, and finishes when it has ended the stream.
        &&& self.worker_gone() <==> self.stage is Finished
        &&& self.stage.is_setup() ==> self.startup.items.len() == 0
        &&& self.terminal.items.len() > 0 ==> self.worker_gone()
        // Startup failures are those of setup stages.
        &&& forall|i: int|
            0 <= i < self.startup.items.len() ==> is_report(#[trigger] self.startup.items[i])
        // Only samples are queued.
        &&& forall|i: int|
            0 <= i < self.queue.entries.items.len() ==> is_sample(
                (#[trigger] self.queue.entries.items[i]).delivery,
            )
        &&& self.pending_delivery matches Some(delivery) ==> is_sample(delivery)
        // What ends the stream is a poll failure with its source, after a notice
        // at most.
        &&& self.terminal.items.len() > 0 ==> self.terminal.items.last().failure()
            == CollectorReceiveErrorKind::PollFailure && self.terminal.items.last().reason()
            is Source
        &&& self.terminal.items.len() == 2 ==> self.terminal.items[0]
            == crate::error::omission_notice::<S>()
    }

    /// What the consumer has still to receive, in order: the delivery whose
    /// notice went before, the queued entries, and the errors that ended the
    /// collection.
    pub open spec fn stream(self) -> Seq<Delivery<E, S>> {
        pending_stream(self.pending_delivery) + crate::delivery::entries_stream(
            self.queue.entries.items,
        ) + terminal_stream(self.terminal.items)
    }

    /// What a receive finds: the next of the stream; or that the worker has
    /// stopped, if it has; or nothing.
    pub open spec fn next_delivery(self) -> Option<Delivery<E, S>> {
        if self.stream().len() > 0 {
            Some(self.stream()[0])
        } else if self.worker_gone() {
            Some(Err(crate::error::worker_stop_error()))
        } else {
            None
        }
    }

    /// The collector after a receive.
    pub open spec fn after_receive(self) -> Self {
        if self.pending_delivery is Some {
            CollectorView { pending_delivery: None, ..self }
        } else if self.queue.entries.items.len() > 0 {
            let entry = self.queue.entries.items[0];
            CollectorView {
                queue: DeliveryQueueView {
                    entries: self.queue.entries.without_first(),
                    ..self.queue
                },
                pending_delivery: if entry.output_full_before {
                    Some(entry.delivery)
                } else {
                    None
                },
                ..self
            }
        } else if self.terminal.items.len() > 0 {
            CollectorView { terminal: self.terminal.without_first(), ..self }
        } else {
            self
        }
    }

    /// The collector after a sample, of which `decoded` is the decoded form.
    pub open spec fn after_sample(self, decoded: Result<E, S>) -> Self {
        if self.running {
            CollectorView { queue: self.queue.after_sample(decoded), ..self }
        } else {
            self
        }
    }

    /// The collector after its worker has done what its stage asks for, with
    /// this outcome.
    pub open spec fn after_step(self, outcome: Result<(), S>) -> Self {
        match (self.stage, outcome) {
            (WorkerStage::Finished, _) => self,
            (WorkerStage::Poll, Ok(())) => self.at_poll(),
            (WorkerStage::Poll, Err(source)) => if self.running {
                CollectorView {
                    terminal: ChannelView {
                        items: terminal_errors(self.queue.output_full_pending, source),
                        ..self.terminal
                    },
                    ..self
                }.after_worker_exit()
            } else {
                self.after_worker_exit()
            },
            (WorkerStage::BuildRing, Ok(())) => if self.startup.receiver_open {
                CollectorView { startup: self.startup.with_last(Ok(())), ..self }.at_poll()
            } else {
                self.after_worker_exit()
            },
            (stage, Ok(())) => CollectorView { stage: stage.next_setup(), ..self },
            (stage, Err(source)) => CollectorView {
                startup: if self.startup.receiver_open {
                    self.startup.with_last(
                        Err(
                            CollectorStartError::of(
                                stage.failure_kind(),
                                ErrorDetail::Source(source),
                            ),
                        ),
                    )
                } else {
                    self.startup
                },
                ..self
            }.after_worker_exit(),
        }
    }

    /// The collector after the consumer has taken the startup report, if there is
    /// one.
    pub open spec fn after_startup_taken(self) -> Self {
        if self.startup.items.len() > 0 {
            CollectorView { startup: self.startup.without_first(), ..self }
        } else {
            self
        }
    }

    /// The collector after the consumer has stopped to await the startup report.
    pub open spec fn after_startup_closed(self) -> Self {
        CollectorView { startup: self.startup.receiver_closed(), ..self }
    }

    /// The collector with its worker about to poll, or finished if shutdown was
    /// requested.
    pub open spec fn at_poll(self) -> Self {
        if self.running {
            CollectorView { stage: WorkerStage::Poll, ..self }
        } else {
            self.after_worker_exit()
        }
    }

    /// The collector after shutdown was requested.
    pub open spec fn after_shutdown(self) -> Self {
        CollectorView { running: false, ..self }
    }

    /// The collector after its worker has finished, or gone without finishing.
    pub open spec fn after_worker_exit(self) -> Self {
        CollectorView {
            queue: DeliveryQueueView { entries: self.queue.entries.sender_closed(), ..self.queue },
            terminal: self.terminal.sender_closed(),
            startup: self.startup.sender_closed(),
            stage: WorkerStage::Finished,
            ..self
        }
    }
}

/// The delivery whose notice went before it, as a stream.
pub open spec fn pending_stream<E, S>(pending: Option<Delivery<E, S>>) -> Seq<
    Delivery<E, S>,
> {
    match pending {
        Some(delivery) => seq![delivery],
        None => Seq::empty(),
    }
}

/// The errors that ended the collection, as a stream.
pub open spec fn terminal_stream<E, S>(errors: Seq<CollectorReceiveError<S>>) -> Seq<
    Delivery<E, S>,
> {
    Seq::new(errors.len(), |i: int| Err(errors[i]))
}

/// A receive takes the first of what there is to receive, and nothing else.
pub(crate) proof fn lemma_after_receive<E, S>(state: CollectorView<E, S>)
    requires
        state.wf(),
    ensures
        state.after_receive().wf(),
        state.stream().len() > 0 ==> state.after_receive().stream() == state.stream().drop_first(),
        state.stream().len() == 0 ==> state.after_receive() == state,
        state.pending_delivery matches Some(delivery) ==> state.next_delivery() == Some(delivery),
        state.pending_delivery is None && state.queue.entries.items.len() > 0
            ==> state.next_delivery() == Some(
            crate::delivery::entry_stream(state.queue.entries.items[0])[0],
        ),
        state.pending_delivery is None && state.queue.entries.items.len() == 0
            && state.terminal.items.len() > 0 ==> state.next_delivery() == Some(
            Err::<E, _>(state.terminal.items[0]),
        ),
{
    let after = state.after_receive();
    let items = state.queue.entries.items;
    if state.pending_delivery is Some {
        assert(state.stream().drop_first() == after.stream());
    } else if items.len() > 0 {
        let entry = items[0];
        assert(crate::delivery::entries_stream(items) == crate::delivery::entry_stream(entry)
            + crate::delivery::entries_stream(items.drop_first()));
        assert(state.stream().drop_first() == after.stream());
    } else if state.terminal.items.len() > 0 {
        assert(terminal_stream::<E, S>(state.terminal.items).drop_first() == terminal_stream::<
            E,
            S,
        >(state.terminal.items.drop_first()));
        assert(state.stream().drop_first() == after.stream());
    }
}

/// The state that a collector's worker and its consumer share.
///
/// The consumer receives deliveries in the order in which their samples arrived.
/// The capacity bounds the queued entries, be they events or malformed samples.
/// Entries that find the queue full are omitted, and one notice stands for all
/// of those omitted in a row; it is returned before the next accepted delivery
/// and takes no entry of its own. It accounts only for this queue, not for
/// samples that the kernel could not place or that came before the programs were
/// attached.
#[derive(Debug)]
#[non_exhaustive]
pub struct Collector<E, S> {
    pub(crate) queue: DeliveryQueue<E, S>,
    pub(crate) pending_delivery: Option<Delivery<E, S>>,
    pub(crate) terminal: Channel<CollectorReceiveError<S>>,
    pub(crate) startup: Channel<StartupResult<S>>,
    pub(crate) running: bool,
    pub(crate) stage: WorkerStage,
}

impl<E, S> View for Collector<E, S> {
    type V = CollectorView<E, S>;

    open(crate) spec fn view(&self) -> CollectorView<E, S> {
        CollectorView {
            queue: self.queue@,
            pending_delivery: self.pending_delivery,
            terminal: self.terminal@,
            startup: self.startup@,
            running: self.running,
            stage: self.stage,
        }
    }
}

/// The result of receiving without waiting, from what the receive found.
pub open spec fn try_receive_result<E, S>(found: Option<Delivery<E, S>>) -> Result<
    E,
    TryReceiveError<S>,
> {
    match found {
        Some(Ok(event)) => Ok(event),
        Some(Err(error)) => Err(TryReceiveError::Collector(error)),
        None => Err(TryReceiveError::Empty),
    }
}

/// The result of receiving within a time limit, from what the receive found.
pub open spec fn receive_timeout_result<E, S>(found: Option<Delivery<E, S>>) -> Result<
    E,
    ReceiveTimeoutError<S>,
> {
    match found {
        Some(Ok(event)) => Ok(event),
        Some(Err(error)) => Err(ReceiveTimeoutError::Collector(error)),
        None => Err(ReceiveTimeoutError::Timeout),
    }
}

impl<E, S> Collector<E, S> {
    /// Creates a collector with the default capacity.
    pub fn new() -> (collector: Result<Self, CollectorStartError<S>>)
        ensures
            collector matches Ok(collector) && collector@.wf() && collector@
                == CollectorView::<E, S>::initial(1024) && collector@.queue.entries.capacity
                == 1024,
    {
        Self::with_event_capacity(DEFAULT_EVENT_CAPACITY)
    }

    /// Creates a collector with the specified capacity, which bounds the queued
    /// entries. Zero is rejected.
    ///
    /// The worker is to be spawned only now. The collector has started when
    /// [`Collector::startup_result`] says so.
    pub fn with_event_capacity(event_capacity: usize) -> (collector: Result<
        Self,
        CollectorStartError<S>,
    >)
        ensures
            event_capacity == 0 ==> collector == Err::<Self, _>(
                CollectorStartError::<S>::of(
                    CollectorStartErrorKind::InvalidCapacity,
                    ErrorDetail::Static("event capacity must be greater than zero"),
                ),
            ),
            event_capacity > 0 ==> (collector matches Ok(collector) && collector@.wf() && collector@
                == CollectorView::<E, S>::initial(event_capacity as nat)
                && collector@.queue.entries.capacity == event_capacity && collector@.running),
    {
        if event_capacity == 0 {
            return Err(
                CollectorStartError::with_static_detail(
                    CollectorStartErrorKind::InvalidCapacity,
                    "event capacity must be greater than zero",
                ),
            );
        }
        Ok(
            Collector {
                queue: DeliveryQueue::new(event_capacity),
                pending_delivery: None,
                terminal: Channel::new(TERMINAL_CAPACITY),
                startup: Channel::new(1),
                running: true,
                stage: WorkerStage::Open,
            },
        )
    }

    /// Returns the next event immediately, without waiting.
    ///
    /// [`TryReceiveError::Empty`] means that the collector is running and has no
    /// ready entry. Delivery failures and eventual worker termination are
    /// returned as [`TryReceiveError::Collector`].
    pub fn try_recv(&mut self) -> (received: Result<E, TryReceiveError<S>>)
        requires
            old(self)@.wf(),
        ensures
            final(self)@.wf(),
            received == try_receive_result(old(self)@.next_delivery()),
            final(self)@ == old(self)@.after_receive(),
            old(self)@.stream().len() > 0 ==> final(self)@.stream()
                == old(self)@.stream().drop_first(),
            old(self)@.stream().len() == 0 ==> final(self)@ == old(self)@,
    {
        proof {
            lemma_after_receive(self@);
        }
        if let Some(delivery) = self.pending_delivery.take() {
            return match delivery {
                Ok(event) => Ok(event),
                Err(error) => Err(TryReceiveError::Collector(error)),
            };
        }
        match self.queue.entries.try_recv() {
            Ok(entry) => match self.unpair(entry) {
                Ok(event) => Ok(event),
                Err(error) => Err(TryReceiveError::Collector(error)),
            },
            Err(TryRecvError::Empty) => match self.terminal_now() {
                Some(error) => Err(TryReceiveError::Collector(error)),
                None => Err(TryReceiveError::Empty),
            },
            Err(TryRecvError::Disconnected) => Err(
                TryReceiveError::Collector(self.terminal_or_stop()),
            ),
        }
    }

    /// Returns what there is once the caller has waited for it, until
    /// [`Collector::delivery_ready`] or the end of the time limit.
    ///
    /// [`ReceiveTimeoutError::Timeout`] is distinct from collection failures.
    /// Buffered entries are returned before a terminal poll failure; after that
    /// failure, subsequent calls report worker termination.
    pub fn recv_timeout(&mut self) -> (received: Result<E, ReceiveTimeoutError<S>>)
        requires
            old(self)@.wf(),
        ensures
            final(self)@.wf(),
            received == receive_timeout_result(old(self)@.next_delivery()),
            final(self)@ == old(self)@.after_receive(),
            old(self)@.stream().len() > 0 ==> final(self)@.stream()
                == old(self)@.stream().drop_first(),
            old(self)@.stream().len() == 0 ==> final(self)@ == old(self)@,
    {
        proof {
            lemma_after_receive(self@);
        }
        if let Some(delivery) = self.pending_delivery.take() {
            return match delivery {
                Ok(event) => Ok(event),
                Err(error) => Err(ReceiveTimeoutError::Collector(error)),
            };
        }
        match self.queue.entries.try_recv() {
            Ok(entry) => match self.unpair(entry) {
                Ok(event) => Ok(event),
                Err(error) => Err(ReceiveTimeoutError::Collector(error)),
            },
            Err(TryRecvError::Empty) => match self.terminal_now() {
                Some(error) => Err(ReceiveTimeoutError::Collector(error)),
                None => Err(ReceiveTimeoutError::Timeout),
            },
            Err(TryRecvError::Disconnected) => Err(
                ReceiveTimeoutError::Collector(self.terminal_or_stop()),
            ),
        }
    }

    /// Returns the delivery of an entry, or the notice that goes before it, in
    /// which case the delivery is kept for the next receive.
    fn unpair(&mut self, entry: DeliveryEntry<E, S>) -> (delivery: Delivery<E, S>)
        ensures
            delivery == crate::delivery::entry_stream(entry)[0],
            final(self)@ == (CollectorView {
                pending_delivery: if entry.output_full_before {
                    Some(entry.delivery)
                } else {
                    old(self)@.pending_delivery
                },
                ..old(self)@
            }),
    {
        if entry.output_full_before {
            self.pending_delivery = Some(entry.delivery);
            Err(output_queue_full())
        } else {
            entry.delivery
        }
    }

    /// Returns the next error that ended the collection, or that the worker has
    /// stopped, if either is so.
    fn terminal_now(&mut self) -> (error: Option<CollectorReceiveError<S>>)
        requires
            old(self)@.terminal.wf(),
        ensures
            final(self)@ == (CollectorView {
                terminal: if old(self)@.terminal.items.len() > 0 {
                    old(self)@.terminal.without_first()
                } else {
                    old(self)@.terminal
                },
                ..old(self)@
            }),
            error == (if old(self)@.terminal.items.len() > 0 {
                Some(old(self)@.terminal.items[0])
            } else if old(self)@.terminal.sender_open {
                None
            } else {
                Some(crate::error::worker_stop_error())
            }),
    {
        match self.terminal.try_recv() {
            Ok(error) => Some(error),
            Err(TryRecvError::Disconnected) => Some(worker_stop()),
            Err(TryRecvError::Empty) => None,
        }
    }

    /// Returns the next error that ended the collection, or that the worker has
    /// stopped.
    fn terminal_or_stop(&mut self) -> (error: CollectorReceiveError<S>)
        requires
            old(self)@.terminal.wf(),
        ensures
            final(self)@ == (CollectorView {
                terminal: if old(self)@.terminal.items.len() > 0 {
                    old(self)@.terminal.without_first()
                } else {
                    old(self)@.terminal
                },
                ..old(self)@
            }),
            error == (if old(self)@.terminal.items.len() > 0 {
                old(self)@.terminal.items[0]
            } else {
                crate::error::worker_stop_error()
            }),
    {
        match self.terminal_now() {
            Some(error) => error,
            None => worker_stop(),
        }
    }

    /// Returns whether a receive need not be waited for: a delivery is there, or
    /// the worker has gone.
    pub fn delivery_ready(&self) -> (ready: bool)
        ensures
            ready == (self@.pending_delivery is Some || self@.queue.entries.items.len() > 0
                || self@.worker_gone()),
            ready == (self@.pending_delivery is Some || self@.queue.entries.items.len() > 0
                || !self@.queue.entries.sender_open),
    {
        self.pending_delivery.is_some() || self.queue.entries.is_settled()
    }

    /// Returns whether the startup report need not be waited for: it is there,
    /// or the worker has gone.
    pub fn startup_ready(&self) -> (ready: bool)
        ensures
            ready == (self@.startup.items.len() > 0 || !self@.startup.sender_open),
    {
        self.startup.is_settled()
    }

    /// Takes the startup report. `early_stop` is the source of the error where
    /// there is no report to take and none can come any more, as the worker has
    /// finished or gone. There is no result while the worker is still starting.
    pub fn startup_result(&mut self, early_stop: S) -> (result: Option<StartupResult<S>>)
        requires
            old(self)@.wf(),
        ensures
            final(self)@.wf(),
            final(self)@ == old(self)@.after_startup_taken(),
            old(self)@.startup.items.len() > 0 ==> result == Some(old(self)@.startup.items[0]),
            old(self)@.startup.items.len() == 0 ==> result == (if old(self)@.worker_gone() {
                Some(
                    Err::<(), _>(
                        CollectorStartError::of(
                            CollectorStartErrorKind::EarlyWorkerStop,
                            ErrorDetail::Source(early_stop),
                        ),
                    ),
                )
            } else {
                None
            }),
            old(self)@.startup.items.len() == 0 ==> (result is Some <==> old(self)@.stage
                is Finished),
            result matches Some(Err(error)) ==> error.reason() is Source,
            final(self)@.running == old(self)@.running,
            final(self)@.stage == old(self)@.stage,
    {
        match self.startup.try_recv() {
            Ok(report) => Some(report),
            Err(TryRecvError::Disconnected) => Some(
                Err(CollectorStartError::new(CollectorStartErrorKind::EarlyWorkerStop, early_stop)),
            ),
            Err(TryRecvError::Empty) => None,
        }
    }

    /// Stops to await the startup report: one that has not been made by now is not
    /// made any more, and a worker that has yet to start finishes without a poll.
    pub fn close_startup(&mut self)
        requires
            old(self)@.wf(),
        ensures
            final(self)@ == old(self)@.after_startup_closed(),
            final(self)@.wf(),
            final(self)@.running == old(self)@.running,
            final(self)@.stage == old(self)@.stage,
            final(self)@.stream() == old(self)@.stream(),
            !final(self)@.startup.receiver_open,
    {
        self.startup.close_receiver();
    }

    /// Requests shutdown: the ring-buffer callback stops the ring buffer, and the
    /// worker finishes after the poll it is in.
    pub fn request_shutdown(&mut self)
        requires
            old(self)@.wf(),
        ensures
            final(self)@ == old(self)@.after_shutdown(),
            final(self)@.wf(),
            !final(self)@.running,
            final(self)@.stage == old(self)@.stage,
            final(self)@.stream() == old(self)@.stream(),
    {
        self.running = false;
    }

    /// Handles one ring-buffer sample, as the ring-buffer callback. The result is
    /// that of [`DeliveryQueue::deliver`].
    pub fn deliver<F: Fn(&[u8]) -> Result<E, S>>(&mut self, data: &[u8], decode: F) -> (code: i32)
        requires
            old(self)@.wf(),
            !old(self)@.worker_gone(),
            call_requires(decode, (data,)),
        ensures
            final(self)@.wf(),
            code == (if old(self)@.running {
                0int
            } else {
                -1
            }),
            !old(self)@.running ==> final(self)@ == old(self)@,
            old(self)@.running ==> exists|decoded: Result<E, S>| #[trigger]
                call_ensures(decode, (data,), decoded) && final(self)@ == old(self)@.after_sample(
                    decoded,
                ),
            final(self)@.running == old(self)@.running,
            final(self)@.stage == old(self)@.stage,
            final(self)@.startup == old(self)@.startup,
            final(self)@.terminal == old(self)@.terminal,
            final(self)@.pending_delivery == old(self)@.pending_delivery,
    {
        self.queue.deliver(&mut self.running, data, decode)
    }

    /// Handles one decoded sample. The result is that of [`Collector::deliver`].
    pub fn deliver_decoded(&mut self, decoded: Result<E, S>) -> (code: i32)
        requires
            old(self)@.wf(),
            !old(self)@.worker_gone(),
        ensures
            final(self)@.wf(),
            code == (if old(self)@.running {
                0int
            } else {
                -1
            }),
            final(self)@ == old(self)@.after_sample(decoded),
            final(self)@.running == old(self)@.running,
            final(self)@.stage == old(self)@.stage,
            final(self)@.startup == old(self)@.startup,
            final(self)@.terminal == old(self)@.terminal,
            final(self)@.pending_delivery == old(self)@.pending_delivery,
    {
        self.queue.deliver_decoded(&mut self.running, decoded)
    }

    /// Returns whether entries were omitted since the last accepted one.
    pub fn output_full_pending(&self) -> (pending: bool)
        ensures
            pending == self@.queue.output_full_pending,
    {
        self.queue.output_full_pending
    }

    /// Returns what the worker has to do next.
    pub fn stage(&self) -> (stage: WorkerStage)
        ensures
            stage == self@.stage,
    {
        self.stage
    }

    /// Records the outcome of what the worker was asked to do, and returns what
    /// it has to do next.
    ///
    /// The first setup stage that fails is reported as the startup result and
    /// finishes the worker. When the last one succeeds, that is reported, and the
    /// worker polls until shutdown is requested or a poll fails; if the report is
    /// no longer awaited, the worker finishes without a poll. A failed poll ends
    /// the collection with that failure, unless shutdown was requested: then a
    /// poll is bound to fail, because the callback stops the ring buffer. Nothing
    /// more comes from a worker that has finished.
    pub fn advance(&mut self, outcome: Result<(), S>) -> (next: WorkerStage)
        requires
            old(self)@.wf(),
        ensures
            final(self)@.wf(),
            final(self)@ == old(self)@.after_step(outcome),
            next == final(self)@.stage,
            final(self)@.running == old(self)@.running,
            old(self)@.stage is Poll && old(self)@.running && outcome is Ok ==> final(self)@
                == old(self)@,
            final(self)@.queue.entries.sender_open == !(next is Finished),
    {
        match outcome {
            Ok(()) => match self.stage {
                WorkerStage::Open => {
                    self.stage = WorkerStage::Load;
                },
                WorkerStage::Load => {
                    self.stage = WorkerStage::Attach;
                },
                WorkerStage::Attach => {
                    self.stage = WorkerStage::AddRing;
                },
                WorkerStage::AddRing => {
                    self.stage = WorkerStage::BuildRing;
                },
                WorkerStage::BuildRing => {
                    match self.startup.try_send(Ok(())) {
                        Ok(()) => self.poll_while_running(),
                        Err(_) => self.finish(),
                    }
                },
                WorkerStage::Poll => self.poll_while_running(),
                WorkerStage::Finished => {},
            },
            Err(source) => {
                match self.stage {
                    WorkerStage::Open => startup_failure(
                        &mut self.startup,
                        CollectorStartErrorKind::Open,
                        source,
                    ),
                    WorkerStage::Load => startup_failure(
                        &mut self.startup,
                        CollectorStartErrorKind::Load,
                        source,
                    ),
                    WorkerStage::Attach => startup_failure(
                        &mut self.startup,
                        CollectorStartErrorKind::Attach,
                        source,
                    ),
                    WorkerStage::AddRing | WorkerStage::BuildRing => startup_failure(
                        &mut self.startup,
                        CollectorStartErrorKind::RingSetup,
                        source,
                    ),
                    WorkerStage::Poll => self.end_stream(source),
                    WorkerStage::Finished => {},
                }
                self.finish();
            },
        }
        self.stage
    }

    /// Has the worker poll next, or finish if shutdown was requested.
    fn poll_while_running(&mut self)
        requires
            old(self)@.queue.wf(),
            old(self)@.terminal.wf(),
            old(self)@.startup.wf(),
        ensures
            final(self)@ == old(self)@.at_poll(),
    {
        if self.running {
            self.stage = WorkerStage::Poll;
        } else {
            self.finish();
        }
    }

    /// Ends the stream with a poll failure, and with an omission notice before
    /// it where no entry carries one, unless shutdown was requested.
    fn end_stream(&mut self, source: S)
        requires
            old(self)@.wf(),
            old(self)@.stage is Poll,
        ensures
            final(self)@ == (CollectorView {
                terminal: if old(self)@.running {
                    ChannelView {
                        items: terminal_errors(old(self)@.queue.output_full_pending, source),
                        ..old(self)@.terminal
                    }
                } else {
                    old(self)@.terminal
                },
                ..old(self)@
            }),
            final(self)@.terminal.wf(),
    {
        if self.running {
            if self.queue.output_full_pending {
                let _ = self.terminal.try_send(output_queue_full());
            }
            let _ = self.terminal.try_send(
                CollectorReceiveError::new(CollectorReceiveErrorKind::PollFailure, source),
            );
            proof {
                assert(self@.terminal.items == terminal_errors(
                    self@.queue.output_full_pending,
                    source,
                ));
            }
        }
    }

    /// Has the worker finish, and closes its sending sides.
    fn finish(&mut self)
        requires
            old(self)@.queue.wf(),
            old(self)@.terminal.wf(),
            old(self)@.startup.wf(),
        ensures
            final(self)@ == old(self)@.after_worker_exit(),
    {
        self.queue.entries.close_sender();
        self.terminal.close_sender();
        self.startup.close_sender();
        self.stage = WorkerStage::Finished;
    }

    /// Records that the worker has gone, be it without finishing. Nothing can be
    /// delivered any more.
    pub fn worker_exited(&mut self)
        requires
            old(self)@.wf(),
        ensures
            final(self)@ == old(self)@.after_worker_exit(),
            final(self)@.wf(),
            final(self)@.stage is Finished,
            !final(self)@.queue.entries.sender_open,
            final(self)@.running == old(self)@.running,
            final(self)@.stream() == old(self)@.stream(),
    {
        self.finish();
    }
}

/// Creates the error for a worker that could not be spawned.
pub fn spawn_failure<S>(source: S) -> (error: CollectorStartError<S>)
    ensures
        error == CollectorStartError::of(
            CollectorStartErrorKind::Spawn,
            ErrorDetail::Source(source),
        ),
{
    CollectorStartError::new(CollectorStartErrorKind::Spawn, source)
}

/// Reports the failure of a setup stage as the startup result, if the report is
/// still awaited.
pub fn startup_failure<S>(
    startup: &mut Channel<StartupResult<S>>,
    kind: CollectorStartErrorKind,
    source: S,
)
    requires
        old(startup)@.wf(),
        old(startup)@.sender_open,
        old(startup)@.receiver_open ==> old(startup)@.items.len() < old(startup)@.capacity,
    ensures
        final(startup)@.wf(),
        final(startup)@ == (if old(startup)@.receiver_open {
            old(startup)@.with_last(Err(CollectorStartError::of(kind, ErrorDetail::Source(source))))
        } else {
            old(startup)@
        }),
{
    let _ = startup.try_send(Err(CollectorStartError::new(kind, source)));
}

} // verus!
