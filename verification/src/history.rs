//! Histories of a channel: what holds of every sequence of operations, in
//! whatever order the handles of a channel happen to act.
//!
//! All handles of a channel work on one shared state, so whatever they do
//! reaches that state one operation after the other. A history is such a
//! sequence of operations. The statements of this module are about all
//! histories, and so about every way in which producers and the consumer
//! can be scheduled.

use crate::blocking::Blocking;
use crate::channel::ChannelView;
use vstd::prelude::*;

verus! {

/// One operation on a channel.
pub enum ChannelOp<T> {
    /// A producer sends a value.
    Send(T),
    /// The consumer asks for the next message.
    Recv,
    /// A producer handle is cloned.
    CloneProducer,
    /// A producer handle is closed.
    CloseProducer,
    /// The consumer handle is dropped.
    DropConsumer,
}

/// The channel after one operation.
pub open spec fn step<T>(state: ChannelView<T>, op: ChannelOp<T>) -> ChannelView<T> {
    match op {
        ChannelOp::Send(value) => state.send(value),
        ChannelOp::Recv => state.recv(),
        ChannelOp::CloneProducer => state.clone_producer(),
        ChannelOp::CloseProducer => state.close_producer(),
        ChannelOp::DropConsumer => state.drop_consumer(),
    }
}

/// The channel after the operations `ops`, in their order, starting from
/// `start`.
pub open spec fn run<T>(start: ChannelView<T>, ops: Seq<ChannelOp<T>>) -> ChannelView<T>
    decreases ops.len(),
{
    if ops.len() == 0 {
        start
    } else {
        step(run(start, ops.drop_last()), ops.last())
    }
}

/// The values that the sends among `ops` put into the queue, in the order
/// in which they were sent. A send that failed put nothing there.
pub open spec fn sent<T>(start: ChannelView<T>, ops: Seq<ChannelOp<T>>) -> Seq<T>
    decreases ops.len(),
{
    if ops.len() == 0 {
        Seq::empty()
    } else {
        let earlier = sent(start, ops.drop_last());
        match ops.last() {
            ChannelOp::Send(value) => if run(start, ops.drop_last()).accepts() {
                earlier.push(value)
            } else {
                earlier
            },
            _ => earlier,
        }
    }
}

/// The messages that the receives among `ops` handed to the consumer, in
/// the order in which it got them.
pub open spec fn received<T>(start: ChannelView<T>, ops: Seq<ChannelOp<T>>) -> Seq<T>
    decreases ops.len(),
{
    if ops.len() == 0 {
        Seq::empty()
    } else {
        let earlier = received(start, ops.drop_last());
        match ops.last() {
            ChannelOp::Recv => match run(start, ops.drop_last()).next() {
                Blocking::Ready(Some(message)) => earlier.push(message),
                _ => earlier,
            },
            _ => earlier,
        }
    }
}

/// `count` receives in a row.
pub open spec fn receives<T>(count: nat) -> Seq<ChannelOp<T>> {
    Seq::new(count, |i: int| ChannelOp::Recv)
}

/// A history can be cut in two anywhere: the second part goes on where the
/// first part stopped.
pub proof fn lemma_run_in_two_parts<T>(
    start: ChannelView<T>,
    first: Seq<ChannelOp<T>>,
    second: Seq<ChannelOp<T>>,
)
    ensures
        run(start, first + second) == run(run(start, first), second),
        sent(start, first + second) == sent(start, first) + sent(run(start, first), second),
        received(start, first + second) == received(start, first) + received(
            run(start, first),
            second,
        ),
    decreases second.len(),
{
    if second.len() == 0 {
        assert(first + second =~= first);
        assert(sent(start, first) + Seq::<T>::empty() =~= sent(start, first));
        assert(received(start, first) + Seq::<T>::empty() =~= received(start, first));
    } else {
        lemma_run_in_two_parts(start, first, second.drop_last());
        assert((first + second).drop_last() =~= first + second.drop_last());
        assert((first + second).last() == second.last());
        let middle = run(start, first);
        assert(sent(start, first + second) =~= sent(start, first) + sent(middle, second));
        assert(received(start, first + second) =~= received(start, first) + received(
            middle,
            second,
        ));
    }
}

/// Nothing is lost, nothing is made up, nothing overtakes.
///
/// What the consumer has received so far is the beginning of what was to be
/// had: the messages that were pending at the start, followed by the values
/// that were sent since. While the consumer is there, what it has received
/// and what is still buffered make up exactly that sequence.
pub proof fn law_queue_keeps_order<T>(start: ChannelView<T>, ops: Seq<ChannelOp<T>>)
    ensures
        received(start, ops).is_prefix_of(start.pending() + sent(start, ops)),
        run(start, ops).consumer ==> received(start, ops) + run(start, ops).queue
            == start.pending() + sent(start, ops),
        run(start, ops).consumer ==> start.consumer,
    decreases ops.len(),
{
    if ops.len() == 0 {
        assert(received(start, ops) + start.queue =~= start.queue);
        assert(start.pending() + sent(start, ops) =~= start.pending());
    } else {
        let earlier = ops.drop_last();
        law_queue_keeps_order(start, earlier);
        let before = run(start, earlier);
        let after = run(start, ops);
        let had = start.pending() + sent(start, earlier);
        let got = received(start, earlier);
        match ops.last() {
            ChannelOp::Send(value) => {
                if before.accepts() {
                    assert(start.pending() + sent(start, ops) =~= had.push(value));
                    assert(got + after.queue =~= (got + before.queue).push(value));
                }
            },
            ChannelOp::Recv => {
                if before.pending().len() > 0 {
                    assert(received(start, ops) + after.queue =~= got + before.queue);
                }
            },
            ChannelOp::CloneProducer => {},
            ChannelOp::CloseProducer => {},
            ChannelOp::DropConsumer => {},
        }
    }
}

/// Picking out the elements that pass a test keeps a beginning a beginning.
pub proof fn lemma_filter_keeps_prefix<T>(part: Seq<T>, whole: Seq<T>, test: spec_fn(T) -> bool)
    requires
        part.is_prefix_of(whole),
    ensures
        part.filter(test).is_prefix_of(whole.filter(test)),
{
    let rest = whole.skip(part.len() as int);
    assert(whole =~= part + rest);
    Seq::filter_distributes_over_add(part, rest, test);
    assert((part.filter(test) + rest.filter(test)).subrange(0, part.filter(test).len() as int)
        =~= part.filter(test));
}

/// The messages of one producer reach the consumer in the order in which
/// that producer sent them.
///
/// `of_producer` tells of a message whether the producer in question sent
/// it. Among the messages that the consumer has received, those of the
/// producer are the beginning of those that the producer has sent (after
/// what was pending at the start), whatever the other handles did in
/// between.
pub proof fn law_order_of_one_producer<T>(
    start: ChannelView<T>,
    ops: Seq<ChannelOp<T>>,
    of_producer: spec_fn(T) -> bool,
)
    ensures
        received(start, ops).filter(of_producer).is_prefix_of(
            (start.pending() + sent(start, ops)).filter(of_producer),
        ),
{
    law_queue_keeps_order(start, ops);
    lemma_filter_keeps_prefix(
        received(start, ops),
        start.pending() + sent(start, ops),
        of_producer,
    );
}

/// After as many receives as messages are pending, the consumer has got
/// every one of them, oldest first, and nothing else has changed.
pub proof fn lemma_receives_take_pending<T>(start: ChannelView<T>, count: nat)
    requires
        count <= start.pending().len(),
    ensures
        received(start, receives(count)) == start.pending().take(count as int),
        run(start, receives(count)) == (ChannelView {
            queue: start.queue.skip(count as int),
            ..start
        }),
    decreases count,
{
    let ops = receives::<T>(count);
    if count == 0 {
        assert(start.pending().take(0) =~= Seq::<T>::empty());
        assert(start.queue.skip(0) =~= start.queue);
    } else {
        let fewer = (count - 1) as nat;
        lemma_receives_take_pending(start, fewer);
        assert(ops.drop_last() =~= receives::<T>(fewer));
        assert(ops.last() == ChannelOp::<T>::Recv);
        let before = run(start, receives(fewer));
        assert(before.pending() =~= start.queue.skip(fewer as int));
        assert(before.pending()[0] == start.pending()[fewer as int]);
        assert(start.pending().take(fewer as int).push(start.pending()[fewer as int])
            =~= start.pending().take(count as int));
        assert(before.queue.drop_first() =~= start.queue.skip(count as int));
    }
}

/// Draining is receiving until nothing is pending: it hands over the same
/// messages in the same order and leaves the same channel behind.
pub proof fn law_drain_is_receiving_all<T>(start: ChannelView<T>)
    ensures
        received(start, receives(start.pending().len())) == start.pending(),
        run(start, receives(start.pending().len())) == start.drained(),
{
    let count = start.pending().len();
    lemma_receives_take_pending(start, count);
    assert(start.pending().take(count as int) =~= start.pending());
    if start.consumer {
        assert(start.queue.skip(count as int) =~= Seq::<T>::empty());
    } else {
        assert(start.queue.skip(0) =~= start.queue);
    }
}

/// End of stream is for good: once the stream has ended, no operation
/// brings a message back, and every receive finds the stream ended.
pub proof fn law_end_of_stream_is_final<T>(start: ChannelView<T>, ops: Seq<ChannelOp<T>>)
    requires
        start.ended(),
    ensures
        run(start, ops).ended(),
        run(start, ops).next() == Blocking::<Option<T>>::Ready(None),
        received(start, ops) == Seq::<T>::empty(),
        sent(start, ops) == Seq::<T>::empty(),
    decreases ops.len(),
{
    if ops.len() > 0 {
        law_end_of_stream_is_final(start, ops.drop_last());
    }
}

/// The test that a message comes from `producer`, where `producer_of`
/// tells of each message which producer sent it.
pub open spec fn sent_by<T>(producer_of: spec_fn(T) -> nat, producer: nat) -> spec_fn(T) -> bool {
    |message: T| producer_of(message) == producer
}

/// The test that a message comes from one of the producers below `bound`.
pub open spec fn sent_below<T>(producer_of: spec_fn(T) -> nat, bound: nat) -> spec_fn(T) -> bool {
    |message: T| producer_of(message) < bound
}

/// Two tests of which every element passes exactly one split a sequence in
/// two parts that together are as long as the whole.
pub proof fn lemma_filter_splits_len<T>(
    whole: Seq<T>,
    one: spec_fn(T) -> bool,
    other: spec_fn(T) -> bool,
)
    requires
        forall|i: int| 0 <= i < whole.len() ==> one(#[trigger] whole[i]) != other(whole[i]),
    ensures
        whole.len() == whole.filter(one).len() + whole.filter(other).len(),
    decreases whole.len(),
{
    if whole.len() == 0 {
        whole.lemma_filter_len(one);
        whole.lemma_filter_len(other);
    } else {
        let rest = whole.drop_last();
        assert forall|i: int| 0 <= i < rest.len() implies one(#[trigger] rest[i]) != other(
            rest[i],
        ) by {
            assert(rest[i] == whole[i]);
        }
        lemma_filter_splits_len(rest, one, other);
        assert(whole =~= rest.push(whole.last()));
        rest.lemma_filter_len_push(one, whole.last());
        rest.lemma_filter_len_push(other, whole.last());
        assert(one(whole[whole.len() - 1]) != other(whole[whole.len() - 1]));
    }
}

/// A test that asks for more than another finds among what passed the
/// other just what it finds in the whole.
pub proof fn lemma_filter_within_filter<T>(
    whole: Seq<T>,
    wide: spec_fn(T) -> bool,
    narrow: spec_fn(T) -> bool,
)
    requires
        forall|element: T| #[trigger] narrow(element) ==> wide(element),
    ensures
        whole.filter(wide).filter(narrow) == whole.filter(narrow),
    decreases whole.len(),
{
    if whole.len() == 0 {
        whole.lemma_filter_len(wide);
        whole.lemma_filter_len(narrow);
        whole.filter(wide).lemma_filter_len(narrow);
        assert(whole.filter(wide).filter(narrow) =~= whole.filter(narrow));
    } else {
        let rest = whole.drop_last();
        let last = whole.last();
        lemma_filter_within_filter(rest, wide, narrow);
        assert(whole =~= rest.push(last));
        rest.lemma_filter_push(last, wide);
        rest.lemma_filter_push(last, narrow);
        if wide(last) {
            rest.filter(wide).lemma_filter_push(last, narrow);
        }
    }
}

/// Messages that come from `producers` producers, `each` of them from every
/// one, are `producers * each` messages.
pub proof fn lemma_count_by_producer<T>(
    messages: Seq<T>,
    producer_of: spec_fn(T) -> nat,
    producers: nat,
    each: nat,
)
    requires
        forall|i: int|
            0 <= i < messages.len() ==> producer_of(#[trigger] messages[i]) < producers,
        forall|producer: nat|
            producer < producers ==> #[trigger] messages.filter(
                sent_by(producer_of, producer),
            ).len() == each,
    ensures
        messages.len() == producers * each,
    decreases producers,
{
    if producers == 0 {
        if messages.len() > 0 {
            assert(producer_of(messages[0]) < producers);
        }
    } else {
        let last = (producers - 1) as nat;
        let from_last = sent_by(producer_of, last);
        let from_others = sent_below(producer_of, last);
        let others = messages.filter(from_others);
        assert forall|i: int| 0 <= i < messages.len() implies from_last(#[trigger] messages[i])
            != from_others(messages[i]) by {
            assert(producer_of(messages[i]) < producers);
        }
        lemma_filter_splits_len(messages, from_last, from_others);
        assert(messages.filter(from_last).len() == each);
        assert forall|i: int| 0 <= i < others.len() implies producer_of(#[trigger] others[i])
            < last by {
            messages.lemma_filter_pred(from_others, i);
        }
        assert forall|producer: nat| producer < last implies #[trigger] others.filter(
            sent_by(producer_of, producer),
        ).len() == each by {
            lemma_filter_within_filter(messages, from_others, sent_by(producer_of, producer));
        }
        lemma_count_by_producer(others, producer_of, last, each);
        assert(each + last * each == producers * each) by (nonlinear_arith)
            requires
                producers == last + 1,
        ;
    }
}

/// Every message of every producer arrives, and then the stream ends.
///
/// Take a new channel and any history after which the consumer is still
/// there and every producer handle has been closed. Let the sends of that
/// history come from `producers` producers, `each` values from every one of
/// them, where `producer_of` tells of a value which producer sent it. Then
/// the consumer, once it has asked for every message that is still
/// buffered, has received exactly the values that were sent, in the order
/// in which they were sent; they are `producers * each` values; and what it
/// finds next is the end of the stream.
pub proof fn law_every_message_then_end_of_stream<T>(
    ops: Seq<ChannelOp<T>>,
    producer_of: spec_fn(T) -> nat,
    producers: nat,
    each: nat,
)
    requires
        run(ChannelView::fresh(), ops).consumer,
        run(ChannelView::fresh(), ops).closed(),
        forall|i: int|
            0 <= i < sent(ChannelView::fresh(), ops).len() ==> producer_of(
                #[trigger] sent(ChannelView::fresh(), ops)[i],
            ) < producers,
        forall|producer: nat|
            producer < producers ==> #[trigger] sent(ChannelView::fresh(), ops).filter(
                sent_by(producer_of, producer),
            ).len() == each,
    ensures
        ({
            let start = ChannelView::<T>::fresh();
            let all = ops + receives(run(start, ops).queue.len());
            &&& received(start, all) == sent(start, ops)
            &&& received(start, all).len() == producers * each
            &&& run(start, all).next() == Blocking::<Option<T>>::Ready(None)
        }),
{
    let start = ChannelView::<T>::fresh();
    let closed = run(start, ops);
    let rest = receives::<T>(closed.queue.len());
    law_queue_keeps_order(start, ops);
    lemma_receives_take_pending(closed, closed.queue.len());
    lemma_run_in_two_parts(start, ops, rest);
    assert(closed.pending().take(closed.queue.len() as int) =~= closed.queue);
    assert(start.pending() + sent(start, ops) =~= sent(start, ops));
    lemma_count_by_producer(sent(start, ops), producer_of, producers, each);
}

/// Without a consumer no send succeeds, and the consumer never comes back.
///
/// From the moment at which the consumer handle is dropped, whatever the
/// producers do, the channel accepts no value: every send is answered with
/// the value handed back, and the queue stays empty.
pub proof fn law_no_send_without_consumer<T>(start: ChannelView<T>, ops: Seq<ChannelOp<T>>)
    ensures
        !run(start.drop_consumer(), ops).accepts(),
        sent(start.drop_consumer(), ops) == Seq::<T>::empty(),
        run(start.drop_consumer(), ops).queue == Seq::<T>::empty(),
    decreases ops.len(),
{
    if ops.len() > 0 {
        law_no_send_without_consumer(start, ops.drop_last());
    }
}

/// A closed channel stays closed: no handle is left from which a new
/// producer could come, so nothing is ever sent again. What is buffered can
/// still be received.
pub proof fn law_closed_is_final<T>(start: ChannelView<T>, ops: Seq<ChannelOp<T>>)
    requires
        start.closed(),
    ensures
        run(start, ops).closed(),
        sent(start, ops) == Seq::<T>::empty(),
        received(start, ops).is_prefix_of(start.pending()),
    decreases ops.len(),
{
    if ops.len() > 0 {
        law_closed_is_final(start, ops.drop_last());
    }
    law_queue_keeps_order(start, ops);
    assert(start.pending() + sent(start, ops) =~= start.pending());
}

} // verus!
