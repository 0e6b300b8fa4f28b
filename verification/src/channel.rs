//! The broadcast channel: one producer, up to sixteen consumers, each with a
//! private queue of depth four that loses its oldest value on overflow.
//!
//! The channel is `embassy_sync`'s publish/subscribe channel, which keeps one
//! shared queue and a cursor per subscriber. This module proves that, seen
//! from each consumer, the shared queue is a private bounded queue.

use vstd::prelude::*;
use crate::relay::{Relay, QUEUE_DEPTH, MAX_SUBSCRIBERS};
use crate::relay::{relay_cursors, relay_next_id, relay_publishers, relay_queue, relay_start, read_position};
use crate::relay::{add_subscriber, claim_publisher, create, publish_immediate, try_next_message};

verus! {

/// Why the channel refused a request.
#[derive(Clone, Copy, Debug, PartialEq, Eq, Structural)]
pub enum ChannelError {
    /// Sixteen consumers exist already.
    CapacityExceeded,
}

/// A consumer's queue after one more value is delivered to it: a full queue
/// loses its oldest value first.
pub open spec fn deliver(queue: Seq<usize>, value: usize) -> Seq<usize> {
    if queue.len() >= QUEUE_DEPTH {
        queue.drop_first().push(value)
    } else {
        queue.push(value)
    }
}

/// Every consumer's queue after one value is delivered to each.
pub open spec fn deliver_all(queues: Seq<Seq<usize>>, value: usize) -> Seq<Seq<usize>> {
    Seq::new(queues.len(), |i: int| deliver(queues[i], value))
}

/// A consumer's queue after a run of values is delivered to it, one by one.
pub open spec fn deliver_each(queue: Seq<usize>, values: Seq<usize>) -> Seq<usize>
    decreases values.len(),
{
    if values.len() == 0 {
        queue
    } else {
        deliver(deliver_each(queue, values.drop_last()), values.last())
    }
}

/// The last four of a run of values, or all of them if there are fewer.
pub open spec fn latest(values: Seq<usize>) -> Seq<usize> {
    if values.len() <= QUEUE_DEPTH {
        values
    } else {
        values.skip(values.len() - QUEUE_DEPTH)
    }
}

/// A consumer that does not drain its queue holds the most recent four of
/// the values it had and was sent, in the order of publication: nothing is
/// reordered, and only the oldest values are lost.
pub proof fn lemma_keeps_latest(queue: Seq<usize>, values: Seq<usize>)
    requires
        queue.len() <= QUEUE_DEPTH,
    ensures
        deliver_each(queue, values) == latest(queue + values),
        deliver_each(queue, values).len() <= QUEUE_DEPTH,
    decreases values.len(),
{
    if values.len() == 0 {
        assert(queue + values =~= queue);
    } else {
        let earlier = values.drop_last();
        lemma_keeps_latest(queue, earlier);
        assert((queue + earlier).push(values.last()) =~= queue + values);
        assert(deliver(latest(queue + earlier), values.last()) =~= latest(queue + values));
    }
}

/// Of five values sent to a consumer that starts empty and never drains, the
/// last four remain, oldest first, and the first is gone.
pub proof fn lemma_fifth_evicts_first(a: usize, b: usize, c: usize, d: usize, e: usize)
    ensures
        deliver_each(Seq::empty(), seq![a, b, c, d, e]) == seq![b, c, d, e],
{
    lemma_keeps_latest(Seq::empty(), seq![a, b, c, d, e]);
    assert(latest(Seq::<usize>::empty() + seq![a, b, c, d, e]) =~= seq![b, c, d, e]);
}

/// How many of the cursors are at or before `id`: the subscribers that have
/// yet to read the message `id`.
spec fn readers_due(cursors: Seq<nat>, id: int) -> nat
    decreases cursors.len(),
{
    if cursors.len() == 0 {
        0
    } else {
        readers_due(cursors.drop_last(), id) + if cursors.last() <= id {
            1nat
        } else {
            0nat
        }
    }
}

proof fn lemma_due_push(cursors: Seq<nat>, cursor: nat, id: int)
    ensures
        readers_due(cursors.push(cursor), id) == readers_due(cursors, id) + if cursor <= id {
            1nat
        } else {
            0nat
        },
{
    assert(cursors.push(cursor).drop_last() =~= cursors);
}

proof fn lemma_due_update(cursors: Seq<nat>, i: int, cursor: nat, id: int)
    requires
        0 <= i < cursors.len(),
    ensures
        readers_due(cursors.update(i, cursor), id) + (if cursors[i] <= id {
            1nat
        } else {
            0nat
        }) == readers_due(cursors, id) + if cursor <= id {
            1nat
        } else {
            0nat
        },
    decreases cursors.len(),
{
    let updated = cursors.update(i, cursor);
    if i == cursors.len() - 1 {
        assert(updated.drop_last() =~= cursors.drop_last());
    } else {
        lemma_due_update(cursors.drop_last(), i, cursor, id);
        assert(updated.drop_last() =~= cursors.drop_last().update(i, cursor));
    }
}

proof fn lemma_due_all(cursors: Seq<nat>, id: int)
    requires
        forall|i: int| 0 <= i < cursors.len() ==> cursors[i] <= id,
    ensures
        readers_due(cursors, id) == cursors.len(),
    decreases cursors.len(),
{
    if cursors.len() > 0 {
        lemma_due_all(cursors.drop_last(), id);
    }
}

proof fn lemma_due_witness(cursors: Seq<nat>, id: int) -> (i: int)
    requires
        readers_due(cursors, id) >= 1,
    ensures
        0 <= i < cursors.len(),
        cursors[i] <= id,
    decreases cursors.len(),
{
    if cursors.last() <= id {
        cursors.len() - 1
    } else {
        lemma_due_witness(cursors.drop_last(), id)
    }
}

/// Two subscribers that are both due make at least two.
proof fn lemma_due_two(cursors: Seq<nat>, i: int, j: int, id: int)
    requires
        0 <= i < cursors.len(),
        0 <= j < cursors.len(),
        i != j,
        cursors[i] <= id,
        cursors[j] <= id,
    ensures
        readers_due(cursors, id) >= 2,
{
    let past = (id + 1) as nat;
    let without = cursors.update(i, past);
    lemma_due_update(cursors, i, past, id);
    if readers_due(without, id) == 0 {
        let moved = without.update(j, past);
        lemma_due_update(without, j, past, id);
    }
}

/// The values that subscriber `i` has yet to read, oldest first.
spec fn pending(r: Relay, i: int) -> Seq<usize> {
    let from = read_position(r, i);
    Seq::new((relay_queue(r).len() - from) as nat, |j: int| relay_queue(r)[from + j].0)
}

/// The channel with its producer handle and its consumers.
pub struct BroadcastChannel {
    relay: Relay,
    consumers: usize,
    published: u64,
}

impl View for BroadcastChannel {
    type V = Seq<Seq<usize>>;

    /// The private queue of each consumer, in the order of subscription,
    /// oldest value first.
    closed spec fn view(&self) -> Seq<Seq<usize>> {
        Seq::new(relay_cursors(self.relay).len(), |i: int| pending(self.relay, i))
    }
}

impl BroadcastChannel {
    /// The number of values that were published while anyone subscribed.
    pub closed spec fn spec_published(&self) -> nat {
        relay_next_id(self.relay)
    }

    /// What holds of every channel that `new` made and the methods changed.
    pub closed spec fn wf(&self) -> bool {
        let queue = relay_queue(self.relay);
        let cursors = relay_cursors(self.relay);
        let next = relay_next_id(self.relay);
        &&& relay_publishers(self.relay) == 1
        &&& queue.len() <= QUEUE_DEPTH
        &&& queue.len() <= next
        &&& next <= u64::MAX
        &&& cursors.len() <= MAX_SUBSCRIBERS
        &&& self.consumers == cursors.len()
        &&& self.published == next
        &&& forall|i: int| 0 <= i < cursors.len() ==> #[trigger] cursors[i] <= next
        &&& forall|k: int|
            0 <= k < queue.len() ==> (#[trigger] queue[k]).1 == readers_due(
                cursors,
                relay_start(self.relay) + k,
            )
        &&& forall|k: int| 0 <= k < queue.len() ==> (#[trigger] queue[k]).1 >= 1
    }

    /// No consumer's queue holds more than four values, and there are at most
    /// sixteen consumers.
    pub proof fn lemma_bounded(&self)
        requires
            self.wf(),
        ensures
            self@.len() <= MAX_SUBSCRIBERS,
            forall|i: int| 0 <= i < self@.len() ==> (#[trigger] self@[i]).len() <= QUEUE_DEPTH,
    {
    }

    /// A channel with its producer registered and no consumer. Its storage
    /// is allocated here and stays allocated for the rest of the process.
    pub fn new() -> (channel: Self)
        ensures
            channel.wf(),
            channel@ == Seq::<Seq<usize>>::empty(),
            channel.spec_published() == 0,
    {
        let mut relay = create();
        let claimed = claim_publisher(&mut relay);
        assert(claimed.is_ok());
        let channel = BroadcastChannel { relay, consumers: 0, published: 0 };
        assert(channel@ =~= Seq::<Seq<usize>>::empty());
        channel
    }

    /// The number of consumers.
    pub fn consumer_count(&self) -> (n: usize)
        requires
            self.wf(),
        ensures
            n == self@.len(),
    {
        self.consumers
    }

    /// The number of values that were published while anyone subscribed.
    pub fn published(&self) -> (n: u64)
        requires
            self.wf(),
        ensures
            n == self.spec_published(),
    {
        self.published
    }

    /// Adds a consumer with an empty queue and returns its index, or fails if
    /// sixteen consumers exist; the other consumers keep their queues either
    /// way.
    pub fn subscribe(&mut self) -> (res: Result<usize, ChannelError>)
        requires
            old(self).wf(),
        ensures
            final(self).wf(),
            final(self).spec_published() == old(self).spec_published(),
            old(self)@.len() < MAX_SUBSCRIBERS ==> res == Ok::<usize, ChannelError>(
                old(self)@.len() as usize,
            ) && final(self)@ == old(self)@.push(Seq::<usize>::empty()),
            old(self)@.len() >= MAX_SUBSCRIBERS ==> res == Err::<usize, ChannelError>(
                ChannelError::CapacityExceeded,
            ) && final(self)@ == old(self)@,
    {
        let ghost before = self.relay;
        match add_subscriber(&mut self.relay) {
            Ok(()) => {
                let index = self.consumers;
                self.consumers = self.consumers + 1;
                proof {
                    let after = self.relay;
                    let cursors = relay_cursors(before);
                    let next = relay_next_id(before);
                    assert forall|k: int| 0 <= k < relay_queue(after).len() implies (
                    #[trigger] relay_queue(after)[k]).1 == readers_due(
                        relay_cursors(after),
                        relay_start(after) + k,
                    ) by {
                        lemma_due_push(cursors, next, relay_start(before) + k);
                    }
                    assert forall|i: int| 0 <= i < relay_cursors(after).len() implies pending(
                        after,
                        i,
                    ) == old(self)@.push(Seq::<usize>::empty())[i] by {
                        if i < cursors.len() {
                            assert(pending(after, i) =~= pending(before, i));
                        } else {
                            assert(pending(after, i) =~= Seq::<usize>::empty());
                        }
                    }
                    assert(self@ =~= old(self)@.push(Seq::<usize>::empty()));
                }
                Ok(index)
            },
            Err(_) => {
                proof {
                    assert(self@ =~= old(self)@);
                }
                Err(ChannelError::CapacityExceeded)
            },
        }
    }

    /// Delivers `value` to every consumer, at once and without waiting for
    /// any of them: a consumer whose queue is full loses its oldest value.
    pub fn publish(&mut self, value: usize)
        requires
            old(self).wf(),
            old(self).spec_published() < u64::MAX,
        ensures
            final(self).wf(),
            final(self)@ == deliver_all(old(self)@, value),
            final(self).spec_published() == old(self).spec_published() + if old(self)@.len() == 0 {
                0nat
            } else {
                1nat
            },
    {
        let ghost before = self.relay;
        publish_immediate(&mut self.relay, value);
        if self.consumers > 0 {
            self.published = self.published + 1;
        }
        proof {
            let after = self.relay;
            let queue = relay_queue(before);
            let cursors = relay_cursors(before);
            let start = relay_start(before);
            if cursors.len() == 0 {
                assert(self@ =~= deliver_all(old(self)@, value));
            } else {
                let shift: int = if queue.len() == QUEUE_DEPTH {
                    1
                } else {
                    0
                };
                assert(relay_start(after) == start + shift);
                lemma_due_all(cursors, relay_next_id(before) as int);
                assert forall|k: int| 0 <= k < relay_queue(after).len() implies (
                #[trigger] relay_queue(after)[k]).1 == readers_due(
                    relay_cursors(after),
                    relay_start(after) + k,
                ) && relay_queue(after)[k].1 >= 1 by {
                    if k < relay_queue(after).len() - 1 {
                        assert(relay_queue(after)[k] == queue[k + shift]);
                    }
                }
                assert forall|i: int| 0 <= i < cursors.len() implies pending(after, i)
                    == deliver_all(old(self)@, value)[i] by {
                    let from = read_position(before, i);
                    let was = pending(before, i);
                    assert(was.len() == queue.len() - from);
                    if shift == 1 && from == 0 {
                        assert(read_position(after, i) == 0);
                        assert(pending(after, i) =~= was.drop_first().push(value));
                    } else {
                        assert(read_position(after, i) == from - shift);
                        assert(pending(after, i) =~= was.push(value));
                    }
                }
                assert(self@ =~= deliver_all(old(self)@, value));
            }
        }
    }

    /// Takes the oldest value out of a consumer's queue, or returns `None`,
    /// changing nothing, if the queue is empty. No other consumer's queue
    /// changes.
    pub fn try_next(&mut self, consumer: usize) -> (res: Option<usize>)
        requires
            old(self).wf(),
            consumer < old(self)@.len(),
        ensures
            final(self).wf(),
            final(self).spec_published() == old(self).spec_published(),
            old(self)@[consumer as int].len() == 0 ==> res.is_none() && final(self)@ == old(self)@,
            old(self)@[consumer as int].len() > 0 ==> res == Some(old(self)@[consumer as int][0])
                && final(self)@ == old(self)@.update(
                consumer as int,
                old(self)@[consumer as int].drop_first(),
            ),
    {
        let ghost before = self.relay;
        let res = try_next_message(&mut self.relay, consumer);
        proof {
            let after = self.relay;
            let queue = relay_queue(before);
            let cursors = relay_cursors(before);
            let start = relay_start(before);
            let me = consumer as int;
            let at = read_position(before, me);
            if res.is_none() {
                assert forall|i: int| 0 <= i < cursors.len() implies pending(after, i) == pending(
                    before,
                    i,
                ) by {
                    assert(pending(after, i) =~= pending(before, i));
                }
                assert forall|k: int| 0 <= k < queue.len() implies (#[trigger] queue[k]).1
                    == readers_due(relay_cursors(after), start + k) by {
                    lemma_due_update(cursors, me, relay_cursors(after)[me], start + k);
                }
                assert(self@ =~= old(self)@);
            } else {
                let popped = at == 0 && queue[0].1 == 1;
                let shift: int = if popped {
                    1
                } else {
                    0
                };
                let moved = relay_cursors(after)[me];
                assert(moved == start + at + 1);
                assert(relay_start(after) == start + shift);
                // Everyone else has read what leaves the queue.
                assert forall|i: int| 0 <= i < cursors.len() && i != me && popped implies cursors[i]
                    > start by {
                    if cursors[i] <= start {
                        lemma_due_two(cursors, me, i, start);
                    }
                }
                // A message behind the front still has a reader after this one.
                if at > 0 {
                    assert(queue[at - 1].1 >= 1);
                    let other = lemma_due_witness(cursors, start + at - 1);
                    lemma_due_two(cursors, me, other, start + at);
                }
                assert forall|k: int| 0 <= k < relay_queue(after).len() implies (
                #[trigger] relay_queue(after)[k]).1 == readers_due(
                    relay_cursors(after),
                    relay_start(after) + k,
                ) && relay_queue(after)[k].1 >= 1 by {
                    lemma_due_update(cursors, me, moved, start + shift + k);
                    assert(queue[k + shift].1 >= 1);
                }
                assert forall|i: int| 0 <= i < cursors.len() implies pending(after, i) == old(
                    self,
                )@.update(me, old(self)@[me].drop_first())[i] by {
                    if i == me {
                        assert(pending(after, i) =~= pending(before, i).drop_first());
                    } else {
                        assert(pending(after, i) =~= pending(before, i));
                    }
                }
                assert(self@ =~= old(self)@.update(me, old(self)@[me].drop_first()));
            }
        }
        res
    }
}

} // verus!
