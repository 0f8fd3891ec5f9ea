//! A multi-producer, single-consumer channel: an ordered queue that closes
//! by itself when its last producer is gone.
//!
//! [`Channel`] is the state that all handles of one channel share. It counts
//! the live producer handles and remembers whether the consumer handle is
//! still there. Whoever embeds it gives each handle access to the one
//! `Channel` and calls the operation that belongs to what the handle does:
//! cloning or dropping a producer, sending, receiving, dropping the consumer.
//!
//! What each operation does is defined on [`ChannelView`], the mathematical
//! picture of a channel, and every executable operation is proved to follow
//! that definition.

use crate::blocking::Blocking;
use crate::error::Error;
use std::collections::VecDeque;
use vstd::prelude::*;

verus! {

/// The mathematical picture of a channel.
pub struct ChannelView<T> {
    /// The buffered messages, oldest first.
    pub queue: Seq<T>,
    /// The number of live producer handles.
    pub producers: nat,
    /// Whether the consumer handle is still there.
    pub consumer: bool,
}

impl<T> ChannelView<T> {
    /// A channel right after its creation: nothing buffered, one producer,
    /// one consumer.
    pub open spec fn fresh() -> Self {
        ChannelView { queue: Seq::empty(), producers: 1, consumer: true }
    }

    /// A channel is closed once no live producer handle is left.
    pub open spec fn closed(self) -> bool {
        self.producers == 0
    }

    /// Whether a value that is sent now will be buffered: somebody must be
    /// left to send it and somebody to receive it.
    pub open spec fn accepts(self) -> bool {
        self.consumer && !self.closed()
    }

    /// The channel after a send of `value`: the value joins the tail of the
    /// queue if the channel accepts it, and nothing changes otherwise.
    pub open spec fn send(self, value: T) -> Self {
        if self.accepts() {
            ChannelView { queue: self.queue.push(value), ..self }
        } else {
            self
        }
    }

    /// The channel after a producer handle has been cloned. Only a live
    /// handle can be cloned, so a closed channel stays closed.
    pub open spec fn clone_producer(self) -> Self {
        if self.closed() {
            self
        } else {
            ChannelView { producers: self.producers + 1, ..self }
        }
    }

    /// The channel after a producer handle has been closed.
    pub open spec fn close_producer(self) -> Self {
        if self.closed() {
            self
        } else {
            ChannelView { producers: (self.producers - 1) as nat, ..self }
        }
    }

    /// The channel after the consumer handle has been dropped. The buffered
    /// messages go with it: nobody can receive them any more.
    pub open spec fn drop_consumer(self) -> Self {
        ChannelView { queue: Seq::empty(), consumer: false, ..self }
    }

    /// The messages that the consumer has yet to receive, oldest first.
    pub open spec fn pending(self) -> Seq<T> {
        if self.consumer {
            self.queue
        } else {
            Seq::empty()
        }
    }

    /// End of stream: nothing is pending, and nothing can arrive any more.
    pub open spec fn ended(self) -> bool {
        self.pending().len() == 0 && !self.accepts()
    }

    /// What a receive reports now: the oldest pending message; end of
    /// stream (`None`); or that the consumer has to wait.
    pub open spec fn next(self) -> Blocking<Option<T>> {
        if self.pending().len() > 0 {
            Blocking::Ready(Some(self.pending()[0]))
        } else if self.ended() {
            Blocking::Ready(None)
        } else {
            Blocking::WouldBlock
        }
    }

    /// The channel after a receive: without its oldest pending message, if
    /// there was one.
    pub open spec fn recv(self) -> Self {
        if self.pending().len() > 0 {
            ChannelView { queue: self.queue.drop_first(), ..self }
        } else {
            self
        }
    }

    /// The channel after the consumer has taken every pending message.
    pub open spec fn drained(self) -> Self {
        if self.consumer {
            ChannelView { queue: Seq::empty(), ..self }
        } else {
            self
        }
    }
}

/// The answer to a send that was not accepted. It hands the value back, so
/// that the sender can keep it, send it elsewhere or drop it.
#[derive(Debug, PartialEq, Eq)]
pub struct SendError<T> {
    /// The value that was not sent.
    pub value: T,
}

impl<T> SendError<T> {
    /// The kind of failure, for reporting.
    pub fn kind(&self) -> (kind: Error)
        ensures
            kind == Error::SendError,
    {
        Error::SendError
    }

    /// Takes the unsent value back out.
    pub fn into_value(self) -> (value: T)
        ensures
            value == self.value,
    {
        self.value
    }
}

/// What [`Channel::drain`] took out of a channel.
#[derive(Debug, PartialEq, Eq)]
pub struct Drained<T> {
    /// The messages that were pending, oldest first.
    pub messages: Vec<T>,
    /// Whether the stream has ended: no message will ever follow these.
    pub end_of_stream: bool,
}

/// The shared state of one channel.
pub struct Channel<T> {
    queue: VecDeque<T>,
    producers: usize,
    consumer: bool,
}

impl<T> View for Channel<T> {
    type V = ChannelView<T>;

    closed spec fn view(&self) -> ChannelView<T> {
        ChannelView {
            queue: self.queue@,
            producers: self.producers as nat,
            consumer: self.consumer,
        }
    }
}

impl<T> Channel<T> {
    /// Creates a channel for one producer handle and one consumer handle.
    pub fn new() -> (channel: Self)
        ensures
            channel@ == ChannelView::<T>::fresh(),
    {
        Channel { queue: VecDeque::new(), producers: 1, consumer: true }
    }

    /// The number of live producer handles.
    pub fn producers(&self) -> (count: usize)
        ensures
            count == self@.producers,
    {
        self.producers
    }

    /// Whether the consumer handle is still there.
    pub fn has_consumer(&self) -> (alive: bool)
        ensures
            alive == self@.consumer,
    {
        self.consumer
    }

    /// Whether the channel is closed: no live producer handle is left.
    pub fn is_closed(&self) -> (closed: bool)
        ensures
            closed == self@.closed(),
    {
        self.producers == 0
    }

    /// The number of messages that wait for the consumer.
    pub fn len(&self) -> (count: usize)
        ensures
            count == self@.pending().len(),
    {
        if self.consumer {
            self.queue.len()
        } else {
            0
        }
    }

    /// Whether no message waits for the consumer.
    pub fn is_empty(&self) -> (empty: bool)
        ensures
            empty == (self@.pending().len() == 0),
    {
        self.len() == 0
    }

    /// Registers a clone of a live producer handle and says whether it did.
    ///
    /// A new handle can only come from a live one, so nothing is registered
    /// on a closed channel. Nothing is registered either when the count of
    /// handles has reached `usize::MAX`.
    pub fn clone_producer(&mut self) -> (cloned: bool)
        ensures
            cloned == (!old(self)@.closed() && old(self)@.producers < usize::MAX),
            cloned ==> final(self)@ == old(self)@.clone_producer(),
            !cloned ==> final(self)@ == old(self)@,
    {
        if self.producers == 0 || self.producers == usize::MAX {
            false
        } else {
            self.producers = self.producers + 1;
            true
        }
    }

    /// Takes note that a producer handle was closed or dropped. When it was
    /// the last one, the channel is closed from now on.
    pub fn close_producer(&mut self)
        ensures
            final(self)@ == old(self)@.close_producer(),
    {
        if self.producers > 0 {
            self.producers = self.producers - 1;
        }
    }

    /// Takes note that the consumer handle was dropped, and discards what
    /// was still buffered for it.
    pub fn drop_consumer(&mut self)
        ensures
            final(self)@ == old(self)@.drop_consumer(),
    {
        self.queue.clear();
        self.consumer = false;
    }

    /// Puts `value` at the tail of the queue. Never waits: the queue has no
    /// bound.
    ///
    /// Fails, and hands the value back, exactly when nobody can ever receive
    /// it: the consumer handle has been dropped, or the channel is closed.
    pub fn send(&mut self, value: T) -> (result: Result<(), SendError<T>>)
        ensures
            final(self)@ == old(self)@.send(value),
            old(self)@.accepts() ==> result is Ok,
            !old(self)@.accepts() ==> result == Err::<(), SendError<T>>(SendError { value }),
    {
        if self.consumer && self.producers > 0 {
            self.queue.push_back(value);
            Ok(())
        } else {
            Err(SendError { value })
        }
    }

    /// Takes the oldest message out of the queue.
    ///
    /// Reports end of stream (`None`) when nothing is buffered and the
    /// channel is closed, and `WouldBlock` when nothing is buffered but a
    /// producer may still send.
    pub fn recv(&mut self) -> (result: Blocking<Option<T>>)
        ensures
            result == old(self)@.next(),
            final(self)@ == old(self)@.recv(),
    {
        if !self.consumer {
            return Blocking::Ready(None);
        }
        match self.queue.pop_front() {
            Some(value) => {
                assert(self.queue@ =~= old(self).queue@.drop_first());
                Blocking::Ready(Some(value))
            },
            None => {
                if self.producers == 0 {
                    Blocking::Ready(None)
                } else {
                    Blocking::WouldBlock
                }
            },
        }
    }

    /// Takes every pending message out of the queue, oldest first, and says
    /// whether the stream has ended with them.
    pub fn drain(&mut self) -> (result: Drained<T>)
        ensures
            result.messages@ == old(self)@.pending(),
            result.end_of_stream == final(self)@.ended(),
            final(self)@ == old(self)@.drained(),
    {
        let mut messages: Vec<T> = Vec::new();
        loop
            invariant
                self@.producers == old(self)@.producers,
                self@.consumer == old(self)@.consumer,
                self@.consumer ==> messages@ + self@.queue == old(self)@.queue,
                !self@.consumer ==> messages@.len() == 0 && self@ == old(self)@,
            decreases self@.pending().len(),
        {
            match self.recv() {
                Blocking::Ready(Some(value)) => {
                    proof {
                        let before = messages@;
                        assert(before.push(value) + self@.queue =~= old(self)@.queue);
                    }
                    messages.push(value);
                },
                Blocking::Ready(None) => {
                    assert(self@.consumer ==> messages@ =~= old(self)@.queue);
                    assert(self@.consumer ==> self@.queue =~= Seq::<T>::empty());
                    return Drained { messages, end_of_stream: true };
                },
                Blocking::WouldBlock => {
                    assert(messages@ =~= old(self)@.queue);
                    assert(self@.queue =~= Seq::<T>::empty());
                    return Drained { messages, end_of_stream: false };
                },
            }
        }
    }
}

} // verus!
