//! Delivery entries, and the queue that takes decoded samples from the
//! ring-buffer callback to the consumer.
//!
//! The queue never waits for room. Samples that find it full are omitted; the
//! next entry that is accepted carries a mark that something was omitted before
//! it, so that the notice takes no entry of its own.
use crate::channel::{Channel, ChannelView, TrySendError};
use crate::error::{CollectorReceiveError, CollectorReceiveErrorKind};
use vstd::prelude::*;

verus! {

/// One item of the delivery stream: an event, or a failure in its place.
pub type Delivery<E, S> = Result<E, CollectorReceiveError<S>>;

/// A queued delivery, and whether entries were omitted right before it.
#[derive(Debug)]
pub struct DeliveryEntry<E, S> {
    /// The decoded sample.
    pub delivery: Delivery<E, S>,
    /// Whether entries were omitted between the previous entry and this one.
    pub output_full_before: bool,
}

/// The delivery of a decoded sample: its event, or a malformed-sample failure
/// that keeps the decoder's error.
pub open spec fn delivery_of<E, S>(decoded: Result<E, S>) -> Delivery<E, S> {
    match decoded {
        Ok(event) => Ok(event),
        Err(source) => Err(
            CollectorReceiveError::of(
                CollectorReceiveErrorKind::MalformedSample,
                crate::error::ErrorDetail::Source(source),
            ),
        ),
    }
}

/// What the consumer receives for an entry: the notice if entries were omitted
/// before it, then the delivery.
pub open spec fn entry_stream<E, S>(entry: DeliveryEntry<E, S>) -> Seq<Delivery<E, S>> {
    if entry.output_full_before {
        seq![Err(crate::error::omission_notice()), entry.delivery]
    } else {
        seq![entry.delivery]
    }
}

/// What the consumer receives for a sequence of entries.
pub open spec fn entries_stream<E, S>(entries: Seq<DeliveryEntry<E, S>>) -> Seq<
    Delivery<E, S>,
>
    decreases entries.len(),
{
    if entries.len() == 0 {
        Seq::empty()
    } else {
        entry_stream(entries[0]) + entries_stream(entries.drop_first())
    }
}

/// The state of a delivery queue.
#[verifier::ext_equal]
pub struct DeliveryQueueView<E, S> {
    /// The entries accepted and not yet taken.
    pub entries: ChannelView<DeliveryEntry<E, S>>,
    /// Whether entries were omitted since the last accepted one.
    pub output_full_pending: bool,
}

impl<E, S> DeliveryQueueView<E, S> {
    /// Whether the queue keeps within its capacity.
    pub open spec fn wf(self) -> bool {
        self.entries.wf()
    }

    /// The queue after one more sample, of which `decoded` is the decoded form:
    /// the sample is appended, marked if others were omitted before it, or it is
    /// omitted because the queue is full.
    pub open spec fn after_sample(self, decoded: Result<E, S>) -> Self {
        if self.entries.has_room() {
            DeliveryQueueView {
                entries: self.entries.with_last(
                    DeliveryEntry {
                        delivery: delivery_of(decoded),
                        output_full_before: self.output_full_pending,
                    },
                ),
                output_full_pending: false,
            }
        } else {
            DeliveryQueueView { output_full_pending: true, ..self }
        }
    }
}

/// The queue between the ring-buffer callback and the consumer.
#[derive(Debug)]
pub struct DeliveryQueue<E, S> {
    /// The entries accepted and not yet taken.
    pub entries: Channel<DeliveryEntry<E, S>>,
    /// Whether entries were omitted since the last accepted one.
    pub output_full_pending: bool,
}

impl<E, S> View for DeliveryQueue<E, S> {
    type V = DeliveryQueueView<E, S>;

    open spec fn view(&self) -> DeliveryQueueView<E, S> {
        DeliveryQueueView {
            entries: self.entries@,
            output_full_pending: self.output_full_pending,
        }
    }
}

impl<E, S> DeliveryQueue<E, S> {
    /// Creates an empty queue for up to `capacity` entries.
    pub fn new(capacity: usize) -> (queue: Self)
        requires
            0 < capacity,
        ensures
            queue@ == (DeliveryQueueView::<E, S> {
                entries: ChannelView::empty(capacity as nat),
                output_full_pending: false,
            }),
            queue@.wf(),
    {
        DeliveryQueue { entries: Channel::new(capacity), output_full_pending: false }
    }

    /// Handles one ring-buffer sample, as the ring-buffer callback.
    ///
    /// Returns zero to go on with the ring buffer, and a negative number to stop:
    /// when shutdown was requested, or when the consumer has gone, which in turn
    /// requests shutdown. A full queue does not stop the ring buffer.
    pub fn deliver<F: Fn(&[u8]) -> Result<E, S>>(
        &mut self,
        running: &mut bool,
        data: &[u8],
        decode: F,
    ) -> (code: i32)
        requires
            old(self)@.wf(),
            old(self)@.entries.sender_open,
            call_requires(decode, (data,)),
        ensures
            final(self)@.wf(),
            *final(running) == (*old(running) && old(self)@.entries.receiver_open),
            code == (if *final(running) {
                0int
            } else {
                -1
            }),
            !*final(running) ==> final(self)@ == old(self)@,
            *final(running) ==> exists|decoded: Result<E, S>| #[trigger]
                call_ensures(decode, (data,), decoded) && final(self)@ == old(self)@.after_sample(
                    decoded,
                ),
    {
        if !*running {
            return -1;
        }
        let decoded = decode(data);
        self.deliver_decoded(running, decoded)
    }

    /// Handles one decoded sample. The result is that of
    /// [`DeliveryQueue::deliver`].
    pub fn deliver_decoded(&mut self, running: &mut bool, decoded: Result<E, S>) -> (code: i32)
        requires
            old(self)@.wf(),
            old(self)@.entries.sender_open,
        ensures
            final(self)@.wf(),
            *final(running) == (*old(running) && old(self)@.entries.receiver_open),
            code == (if *final(running) {
                0int
            } else {
                -1
            }),
            final(self)@ == (if *final(running) {
                old(self)@.after_sample(decoded)
            } else {
                old(self)@
            }),
    {
        if !*running {
            return -1;
        }
        let entry = DeliveryEntry {
            delivery: match decoded {
                Ok(event) => Ok(event),
                Err(error) => Err(
                    CollectorReceiveError::new(CollectorReceiveErrorKind::MalformedSample, error),
                ),
            },
            output_full_before: self.output_full_pending,
        };
        match self.entries.try_send(entry) {
            Ok(()) => {
                self.output_full_pending = false;
                0
            },
            Err(TrySendError::Full(_)) => {
                self.output_full_pending = true;
                0
            },
            Err(TrySendError::Disconnected(_)) => {
                *running = false;
                -1
            },
        }
    }
}

/// The stream of one more entry is the stream so far, then that of the entry.
pub(crate) proof fn lemma_entries_stream_push<E, S>(
    entries: Seq<DeliveryEntry<E, S>>,
    entry: DeliveryEntry<E, S>,
)
    ensures
        entries_stream(entries.push(entry)) == entries_stream(entries) + entry_stream(entry),
    decreases entries.len(),
{
    let more = entries.push(entry);
    if entries.len() == 0 {
        assert(more.drop_first() == Seq::<DeliveryEntry<E, S>>::empty());
        assert(entries_stream(more.drop_first()) == Seq::<Delivery<E, S>>::empty());
        assert(entries_stream(more) == entry_stream(entry));
        assert(entries_stream(entries) + entry_stream(entry) == entry_stream(entry));
    } else {
        lemma_entries_stream_push(entries.drop_first(), entry);
        assert(more.drop_first() == entries.drop_first().push(entry));
        assert(entry_stream(entries[0]) + (entries_stream(entries.drop_first()) + entry_stream(
            entry,
        )) == (entry_stream(entries[0]) + entries_stream(entries.drop_first())) + entry_stream(
            entry,
        ));
    }
}

} // verus!
