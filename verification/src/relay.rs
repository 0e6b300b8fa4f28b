//! The shared queue of `embassy_sync`'s publish/subscribe channel, held together
//! with the handles that borrow it.
//!
//! Nothing in this file is proved. Each function below makes one call into
//! `embassy_sync::pubsub` and states what that call does to the channel, in the
//! terms of the four names declared first.

use vstd::prelude::*;
use embassy_sync::blocking_mutex::raw::CriticalSectionRawMutex;
use embassy_sync::pubsub::{Error, PubSubChannel, Publisher, Subscriber};

verus! {

/// Messages the shared queue holds at most.
pub const QUEUE_DEPTH: usize = 4;

/// Subscribers the channel admits at most.
pub const MAX_SUBSCRIBERS: usize = 16;

/// Publishers the channel admits at most.
pub const MAX_PUBLISHERS: usize = 1;

/// `embassy_sync::pubsub::Error`, carried through as an opaque value.
#[verifier::external_type_specification]
#[verifier::external_body]
pub struct ExPubSubError(Error);

/// A `PubSubChannel` of `usize` messages, guarded by a critical section,
/// together with the publisher and subscriber handles taken from it.
///
/// The handles borrow the channel, and the channel changes behind a shared
/// reference, so the three are kept in one value that is only ever changed
/// through `&mut`. The channel is allocated once and never freed.
#[verifier::external_body]
pub struct Relay {
    channel: &'static PubSubChannel<
        CriticalSectionRawMutex,
        usize,
        QUEUE_DEPTH,
        MAX_SUBSCRIBERS,
        MAX_PUBLISHERS,
    >,
    publisher: Option<
        Publisher<'static, CriticalSectionRawMutex, usize, QUEUE_DEPTH, MAX_SUBSCRIBERS, MAX_PUBLISHERS>,
    >,
    subscribers: Vec<
        Subscriber<'static, CriticalSectionRawMutex, usize, QUEUE_DEPTH, MAX_SUBSCRIBERS, MAX_PUBLISHERS>,
    >,
}

/// The channel's queue, oldest message first: each message with the number of
/// subscribers that have yet to read it.
pub uninterp spec fn relay_queue(r: Relay) -> Seq<(usize, nat)>;

/// The identifier that the channel gives to the next message it queues, which
/// is the number of messages it has queued so far.
pub uninterp spec fn relay_next_id(r: Relay) -> nat;

/// For each subscriber, in the order of subscription, the identifier of the
/// next message that it is to read.
pub uninterp spec fn relay_cursors(r: Relay) -> Seq<nat>;

/// The number of publisher slots taken.
pub uninterp spec fn relay_publishers(r: Relay) -> nat;

/// The identifier of the message at the front of the queue.
pub open spec fn relay_start(r: Relay) -> int {
    relay_next_id(r) - relay_queue(r).len()
}

/// `PubSubChannel::new`: a channel with an empty queue, no message queued
/// yet, no subscriber and no publisher.
#[verifier::external_body]
pub(crate) fn create() -> (r: Relay)
    ensures
        relay_queue(r) == Seq::<(usize, nat)>::empty(),
        relay_next_id(r) == 0,
        relay_cursors(r) == Seq::<nat>::empty(),
        relay_publishers(r) == 0,
{
    Relay {
        channel: Box::leak(Box::new(PubSubChannel::new())),
        publisher: None,
        subscribers: Vec::new(),
    }
}

/// `PubSubChannel::publisher`: takes a publisher slot if one is free, and
/// fails, changing nothing, if none is.
#[verifier::external_body]
pub(crate) fn claim_publisher(r: &mut Relay) -> (res: Result<(), Error>)
    ensures
        res.is_ok() <==> relay_publishers(*old(r)) < MAX_PUBLISHERS,
        relay_publishers(*final(r)) == relay_publishers(*old(r)) + (if res.is_ok() { 1nat } else { 0nat }),
        relay_queue(*final(r)) == relay_queue(*old(r)),
        relay_next_id(*final(r)) == relay_next_id(*old(r)),
        relay_cursors(*final(r)) == relay_cursors(*old(r)),
{
    let publisher = r.channel.publisher()?;
    r.publisher = Some(publisher);
    Ok(())
}

/// `PubSubChannel::subscriber`: adds a subscriber whose next message is the
/// next one to be queued, and fails, changing nothing, if sixteen exist.
#[verifier::external_body]
pub(crate) fn add_subscriber(r: &mut Relay) -> (res: Result<(), Error>)
    ensures
        res.is_ok() <==> relay_cursors(*old(r)).len() < MAX_SUBSCRIBERS,
        res.is_ok() ==> relay_cursors(*final(r)) == relay_cursors(*old(r)).push(
            relay_next_id(*old(r)),
        ),
        res.is_err() ==> relay_cursors(*final(r)) == relay_cursors(*old(r)),
        relay_queue(*final(r)) == relay_queue(*old(r)),
        relay_next_id(*final(r)) == relay_next_id(*old(r)),
        relay_publishers(*final(r)) == relay_publishers(*old(r)),
{
    let subscriber = r.channel.subscriber()?;
    r.subscribers.push(subscriber);
    Ok(())
}

/// What `publish_immediate` leaves in the queue: a full queue first loses its
/// front; then, if anyone subscribes, the message joins the back, to be read by
/// every subscriber.
pub open spec fn queue_after_publish(queue: Seq<(usize, nat)>, subscribers: nat, message: usize) -> Seq<
    (usize, nat),
> {
    let room = if queue.len() == QUEUE_DEPTH {
        queue.drop_first()
    } else {
        queue
    };
    if subscribers == 0 {
        room
    } else {
        room.push((message, subscribers))
    }
}

/// `Publisher::publish_immediate`: queues the message without waiting, as
/// `queue_after_publish` says; the message counts as queued only if anyone
/// subscribes.
#[verifier::external_body]
pub(crate) fn publish_immediate(r: &mut Relay, message: usize)
    requires
        relay_publishers(*old(r)) >= 1,
        relay_next_id(*old(r)) < u64::MAX,
    ensures
        relay_queue(*final(r)) == queue_after_publish(
            relay_queue(*old(r)),
            relay_cursors(*old(r)).len(),
            message,
        ),
        relay_next_id(*final(r)) == relay_next_id(*old(r)) + (if relay_cursors(*old(r)).len()
            == 0 {
            0nat
        } else {
            1nat
        }),
        relay_cursors(*final(r)) == relay_cursors(*old(r)),
        relay_publishers(*final(r)) == relay_publishers(*old(r)),
{
    r.publisher.as_ref().unwrap().publish_immediate(message)
}

/// Where subscriber `i` reads next: at its own cursor, or at the front of the
/// queue if the message it was to read has been dropped.
pub open spec fn read_position(r: Relay, i: int) -> int {
    let cursor = relay_cursors(r)[i];
    if cursor < relay_start(r) {
        0
    } else {
        cursor - relay_start(r)
    }
}

/// `Subscriber::try_next_message_pure`: skips what the subscriber missed, then
/// returns the message at its position, if there is one, and counts it as read
/// by one subscriber more. A message at the front that everyone has read
/// leaves the queue.
#[verifier::external_body]
pub(crate) fn try_next_message(r: &mut Relay, i: usize) -> (res: Option<usize>)
    requires
        i < relay_cursors(*old(r)).len(),
        relay_queue(*old(r)).len() <= relay_next_id(*old(r)),
        read_position(*old(r), i as int) < relay_queue(*old(r)).len() ==> relay_queue(
            *old(r),
        )[read_position(*old(r), i as int)].1 >= 1,
    ensures
        res.is_some() <==> read_position(*old(r), i as int) < relay_queue(*old(r)).len(),
        res.is_some() ==> res.unwrap() == relay_queue(*old(r))[read_position(
            *old(r),
            i as int,
        )].0,
        res.is_some() ==> relay_queue(*final(r)) == ({
            let k = read_position(*old(r), i as int);
            let (message, unread) = relay_queue(*old(r))[k];
            if k == 0 && unread == 1 {
                relay_queue(*old(r)).drop_first()
            } else {
                relay_queue(*old(r)).update(k, (message, (unread - 1) as nat))
            }
        }),
        res.is_none() ==> relay_queue(*final(r)) == relay_queue(*old(r)),
        relay_cursors(*final(r)) == relay_cursors(*old(r)).update(
            i as int,
            (relay_start(*old(r)) + read_position(*old(r), i as int) + (if res.is_some() {
                1int
            } else {
                0int
            })) as nat,
        ),
        relay_next_id(*final(r)) == relay_next_id(*old(r)),
        relay_publishers(*final(r)) == relay_publishers(*old(r)),
{
    r.subscribers[i].try_next_message_pure()
}

} // verus!
