//! A worker task: three obligations that share one scheduling slot.
//!
//! A worker keeps a background timer running, drains its consumer queue on
//! the broadcast channel, and reports a heartbeat. Each obligation is a loop
//! of its own; each step of a loop returns what the caller has to do next,
//! and none of the loops can step twice without suspending in between.

use vstd::prelude::*;

verus! {

/// Milliseconds between two rounds of the keep-alive loop.
pub const KEEP_ALIVE_MS: u64 = 10;

/// Milliseconds between two heartbeats of a worker.
pub const HEARTBEAT_MS: u64 = 4000;

/// What the caller has to do after a step of an obligation.
#[derive(Clone, Copy, Debug, PartialEq, Eq, Structural)]
pub enum WorkerAction {
    /// Suspend for this many milliseconds.
    Wait(u64),
    /// Obtain a consumer handle on the broadcast channel; failure is fatal.
    Subscribe,
    /// Suspend until the consumer's queue holds a value, take it out and drop
    /// it.
    AwaitMessage,
    /// Emit a heartbeat line that carries the worker's identity.
    Heartbeat(usize),
}

/// Whether an action gives control back to the scheduler.
pub open spec fn suspends(action: WorkerAction) -> bool {
    action is Wait || action is AwaitMessage
}

/// The state of one worker.
#[derive(Clone, Copy, Debug, PartialEq, Eq, Structural)]
pub struct Worker {
    /// The identity that the heartbeat line carries.
    pub id: usize,
    /// Whether the consumer loop has obtained its handle.
    pub subscribed: bool,
    /// Whether the heartbeat loop is about to report, rather than to wait.
    pub beat_due: bool,
    /// The number of heartbeats reported so far, modulo 256.
    pub beats: u8,
}

/// The number that follows `n`, modulo 256.
pub open spec fn spec_next_beat(n: u8) -> u8 {
    if n == u8::MAX {
        0
    } else {
        (n + 1) as u8
    }
}

/// Counts one heartbeat more, modulo 256.
pub fn next_beat(n: u8) -> (next: u8)
    ensures
        next == spec_next_beat(n),
{
    if n == u8::MAX {
        0
    } else {
        n + 1
    }
}

/// A worker before it has run.
pub open spec fn spec_fresh(id: usize) -> Worker {
    Worker { id, subscribed: false, beat_due: true, beats: 0 }
}

impl Worker {
    /// A worker before it has run: no handle yet, a heartbeat due, none
    /// reported.
    pub fn new(id: usize) -> (worker: Self)
        ensures
            worker == spec_fresh(id),
    {
        Worker { id, subscribed: false, beat_due: true, beats: 0 }
    }

    /// One round of the keep-alive loop: wait, and nothing else.
    pub fn keep_alive_step(&self) -> (action: WorkerAction)
        ensures
            action == WorkerAction::Wait(KEEP_ALIVE_MS),
            suspends(action),
    {
        WorkerAction::Wait(KEEP_ALIVE_MS)
    }

    /// One step of the consumer loop: the first obtains the handle, every
    /// later one waits for a value and drops it.
    pub fn consumer_step(&mut self) -> (action: WorkerAction)
        ensures
            *final(self) == (Worker { subscribed: true, ..*old(self) }),
            !old(self).subscribed ==> action == WorkerAction::Subscribe,
            old(self).subscribed ==> action == WorkerAction::AwaitMessage,
            !suspends(action) ==> suspends(spec_consumer_action(*final(self))),
    {
        if self.subscribed {
            WorkerAction::AwaitMessage
        } else {
            self.subscribed = true;
            WorkerAction::Subscribe
        }
    }

    /// One step of the heartbeat loop: report and wait, in turn. Reporting
    /// counts the heartbeat.
    pub fn heartbeat_step(&mut self) -> (action: WorkerAction)
        ensures
            final(self).id == old(self).id,
            final(self).subscribed == old(self).subscribed,
            final(self).beat_due == !old(self).beat_due,
            old(self).beat_due ==> action == WorkerAction::Heartbeat(old(self).id),
            old(self).beat_due ==> final(self).beats == spec_next_beat(old(self).beats),
            !old(self).beat_due ==> action == WorkerAction::Wait(HEARTBEAT_MS),
            !old(self).beat_due ==> final(self).beats == old(self).beats,
            !suspends(action) ==> suspends(spec_heartbeat_action(*final(self))),
    {
        if self.beat_due {
            self.beat_due = false;
            self.beats = next_beat(self.beats);
            WorkerAction::Heartbeat(self.id)
        } else {
            self.beat_due = true;
            WorkerAction::Wait(HEARTBEAT_MS)
        }
    }
}

/// The action that the next step of the consumer loop returns.
pub open spec fn spec_consumer_action(w: Worker) -> WorkerAction {
    if w.subscribed {
        WorkerAction::AwaitMessage
    } else {
        WorkerAction::Subscribe
    }
}

/// The action that the next step of the heartbeat loop returns.
pub open spec fn spec_heartbeat_action(w: Worker) -> WorkerAction {
    if w.beat_due {
        WorkerAction::Heartbeat(w.id)
    } else {
        WorkerAction::Wait(HEARTBEAT_MS)
    }
}

} // verus!
