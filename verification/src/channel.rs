//! A bounded first-in, first-out channel between one sending and one receiving
//! side.
//!
//! The channel is plain data: sending and receiving never wait. Whoever shares
//! one between threads guards it with a lock and waits outside it.
use std::collections::VecDeque;
use vstd::prelude::*;

verus! {

/// What a channel holds and which of its sides are still open.
#[verifier::ext_equal]
pub struct ChannelView<T> {
    /// The items sent and not yet received, oldest first.
    pub items: Seq<T>,
    /// How many items the channel can hold.
    pub capacity: nat,
    /// Whether more items may still be sent.
    pub sender_open: bool,
    /// Whether items can still be received.
    pub receiver_open: bool,
}

impl<T> ChannelView<T> {
    /// The empty channel with both sides open.
    pub open spec fn empty(capacity: nat) -> Self {
        ChannelView {
            items: Seq::empty(),
            capacity,
            sender_open: true,
            receiver_open: true,
        }
    }

    /// Whether the items fit into the capacity, which is never zero.
    pub open spec fn wf(self) -> bool {
        0 < self.capacity && self.items.len() <= self.capacity
    }

    /// Whether a send would be accepted.
    pub open spec fn has_room(self) -> bool {
        self.receiver_open && self.items.len() < self.capacity
    }

    /// The channel with one more item at its end.
    pub open spec fn with_last(self, item: T) -> Self {
        ChannelView { items: self.items.push(item), ..self }
    }

    /// The channel without its oldest item.
    pub open spec fn without_first(self) -> Self {
        ChannelView { items: self.items.drop_first(), ..self }
    }

    /// The channel after its sending side has gone.
    pub open spec fn sender_closed(self) -> Self {
        ChannelView { sender_open: false, ..self }
    }

    /// The channel after its receiving side has gone.
    pub open spec fn receiver_closed(self) -> Self {
        ChannelView { receiver_open: false, ..self }
    }
}

/// Why an item was not sent. The item is handed back.
#[derive(Debug)]
pub enum TrySendError<T> {
    /// The channel holds as many items as it can.
    Full(T),
    /// The receiving side has gone.
    Disconnected(T),
}

/// Why no item was received.
#[derive(Clone, Copy, Debug, Eq, PartialEq, Structural)]
pub enum TryRecvError {
    /// The channel is empty, and more items may still be sent.
    Empty,
    /// The channel is empty, and the sending side has gone.
    Disconnected,
}

/// A bounded first-in, first-out channel.
#[derive(Debug)]
pub struct Channel<T> {
    items: VecDeque<T>,
    capacity: usize,
    sender_open: bool,
    receiver_open: bool,
}

impl<T> View for Channel<T> {
    type V = ChannelView<T>;

    closed spec fn view(&self) -> ChannelView<T> {
        ChannelView {
            items: self.items@,
            capacity: self.capacity as nat,
            sender_open: self.sender_open,
            receiver_open: self.receiver_open,
        }
    }
}

impl<T> Channel<T> {
    /// Creates an empty channel for up to `capacity` items.
    pub fn new(capacity: usize) -> (channel: Self)
        requires
            0 < capacity,
        ensures
            channel@ == ChannelView::<T>::empty(capacity as nat),
            channel@.wf(),
    {
        Channel { items: VecDeque::new(), capacity, sender_open: true, receiver_open: true }
    }

    /// Appends an item, unless the receiving side has gone or the channel is
    /// full. Only an open sending side can send.
    pub fn try_send(&mut self, item: T) -> (sent: Result<(), TrySendError<T>>)
        requires
            old(self)@.wf(),
            old(self)@.sender_open,
        ensures
            final(self)@.wf(),
            old(self)@.has_room() ==> sent is Ok && final(self)@ == old(self)@.with_last(item),
            !old(self)@.has_room() ==> final(self)@ == old(self)@,
            !old(self)@.receiver_open ==> sent == Err::<(), _>(TrySendError::Disconnected(item)),
            old(self)@.receiver_open && !old(self)@.has_room() ==> sent == Err::<(), _>(
                TrySendError::Full(item),
            ),
    {
        if !self.receiver_open {
            Err(TrySendError::Disconnected(item))
        } else if self.items.len() >= self.capacity {
            Err(TrySendError::Full(item))
        } else {
            self.items.push_back(item);
            Ok(())
        }
    }

    /// Takes the oldest item, if there is one.
    pub fn try_recv(&mut self) -> (received: Result<T, TryRecvError>)
        requires
            old(self)@.wf(),
        ensures
            final(self)@.wf(),
            old(self)@.items.len() > 0 ==> received == Ok::<_, TryRecvError>(old(self)@.items[0])
                && final(self)@ == old(self)@.without_first(),
            old(self)@.items.len() == 0 ==> final(self)@ == old(self)@ && received == Err::<T, _>(
                if old(self)@.sender_open {
                    TryRecvError::Empty
                } else {
                    TryRecvError::Disconnected
                },
            ),
    {
        match self.items.pop_front() {
            Some(item) => {
                proof {
                    assert(self@.items == old(self)@.items.drop_first());
                }
                Ok(item)
            },
            None => if self.sender_open {
                Err(TryRecvError::Empty)
            } else {
                Err(TryRecvError::Disconnected)
            },
        }
    }

    /// Returns whether a receive would not find the channel merely empty: an
    /// item is there, or none can come any more.
    pub fn is_settled(&self) -> (settled: bool)
        ensures
            settled == (self@.items.len() > 0 || !self@.sender_open),
    {
        self.items.len() > 0 || !self.sender_open
    }

    /// Closes the sending side. Items already sent can still be received.
    pub fn close_sender(&mut self)
        requires
            old(self)@.wf(),
        ensures
            final(self)@ == old(self)@.sender_closed(),
            final(self)@.wf(),
    {
        self.sender_open = false;
    }

    /// Closes the receiving side. Further sends are refused.
    pub fn close_receiver(&mut self)
        requires
            old(self)@.wf(),
        ensures
            final(self)@ == old(self)@.receiver_closed(),
            final(self)@.wf(),
    {
        self.receiver_open = false;
    }
}

} // verus!
