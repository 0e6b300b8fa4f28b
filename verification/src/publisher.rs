//! The publisher task: computes the next pattern value, pushes it to the
//! waveform engine, broadcasts the same value, waits one interval, and
//! starts over.
//!
//! The task is a state machine. Each `step` does the work of one phase that
//! needs nothing from outside, and returns what the caller has to do before
//! the next step: push to the engine, publish on the channel, or wait.

use vstd::prelude::*;
use crate::pattern::{is_pattern, spec_nth, spec_successor, successor, PATTERN_START};

verus! {

/// Milliseconds between two published values.
pub const PUBLISH_INTERVAL_MS: u64 = 1;

/// What the task is about to do.
#[derive(Clone, Copy, Debug, PartialEq, Eq, Structural)]
pub enum PublisherPhase {
    /// Not started.
    Idle,
    /// About to compute the next pattern value.
    ComputeNext,
    /// About to push the value to the waveform engine.
    Push,
    /// About to publish the value on the broadcast channel.
    Broadcast,
    /// About to wait for the interval to pass.
    WaitInterval,
}

/// What the caller has to do after a step.
#[derive(Clone, Copy, Debug, PartialEq, Eq, Structural)]
pub enum PublisherAction {
    /// Nothing: step again.
    Proceed,
    /// Push the value into the waveform engine's queue, suspending while the
    /// queue is full.
    Push(usize),
    /// Publish the value on the broadcast channel, without waiting.
    Publish(usize),
    /// Suspend for this many milliseconds.
    Wait(u64),
}

/// The publisher task's state.
#[derive(Clone, Copy, Debug, PartialEq, Eq, Structural)]
pub struct PublisherTask {
    /// What the task is about to do.
    pub phase: PublisherPhase,
    /// The current pattern value.
    pub value: usize,
}

/// One step of the task: the state it leaves and the action it asks for.
pub open spec fn spec_step(s: PublisherTask) -> (PublisherTask, PublisherAction) {
    match s.phase {
        PublisherPhase::Idle => (
            PublisherTask { phase: PublisherPhase::ComputeNext, value: s.value },
            PublisherAction::Proceed,
        ),
        PublisherPhase::ComputeNext => (
            PublisherTask {
                phase: PublisherPhase::Push,
                value: spec_successor(s.value as int) as usize,
            },
            PublisherAction::Proceed,
        ),
        PublisherPhase::Push => (
            PublisherTask { phase: PublisherPhase::Broadcast, value: s.value },
            PublisherAction::Push(s.value),
        ),
        PublisherPhase::Broadcast => (
            PublisherTask { phase: PublisherPhase::WaitInterval, value: s.value },
            PublisherAction::Publish(s.value),
        ),
        PublisherPhase::WaitInterval => (
            PublisherTask { phase: PublisherPhase::ComputeNext, value: s.value },
            PublisherAction::Wait(PUBLISH_INTERVAL_MS),
        ),
    }
}

/// The state after `n` steps from `s`.
pub open spec fn state_after(s: PublisherTask, n: nat) -> PublisherTask
    decreases n,
{
    if n == 0 {
        s
    } else {
        spec_step(state_after(s, (n - 1) as nat)).0
    }
}

/// The actions that the first `n` steps from `s` ask for, in order.
pub open spec fn trace(s: PublisherTask, n: nat) -> Seq<PublisherAction>
    decreases n,
{
    if n == 0 {
        Seq::empty()
    } else {
        trace(s, (n - 1) as nat).push(spec_step(state_after(s, (n - 1) as nat)).1)
    }
}

/// The values that a run of actions pushes to the waveform engine.
pub open spec fn pushes(actions: Seq<PublisherAction>) -> Seq<usize>
    decreases actions.len(),
{
    if actions.len() == 0 {
        Seq::empty()
    } else {
        match actions.last() {
            PublisherAction::Push(v) => pushes(actions.drop_last()).push(v),
            _ => pushes(actions.drop_last()),
        }
    }
}

/// The values that a run of actions publishes on the broadcast channel.
pub open spec fn publishes(actions: Seq<PublisherAction>) -> Seq<usize>
    decreases actions.len(),
{
    if actions.len() == 0 {
        Seq::empty()
    } else {
        match actions.last() {
            PublisherAction::Publish(v) => publishes(actions.drop_last()).push(v),
            _ => publishes(actions.drop_last()),
        }
    }
}

/// The first `len` values of the cycle that follow `start`.
pub open spec fn cycle_from(start: int, len: nat) -> Seq<usize> {
    Seq::new(len, |k: int| spec_nth(start, (k + 1) as nat) as usize)
}

impl PublisherTask {
    /// The value is a pattern value.
    pub open spec fn wf(&self) -> bool {
        is_pattern(self.value as int)
    }

    /// Whether the task is at the top of a cycle: the next value it handles
    /// is one that it has yet to compute.
    pub open spec fn at_cycle_start(&self) -> bool {
        self.phase == PublisherPhase::Idle || self.phase == PublisherPhase::ComputeNext
            || self.phase == PublisherPhase::WaitInterval
    }

    /// The task before it has run.
    pub fn new() -> (task: Self)
        ensures
            task == (PublisherTask { phase: PublisherPhase::Idle, value: PATTERN_START }),
            task.wf(),
            task.at_cycle_start(),
    {
        PublisherTask { phase: PublisherPhase::Idle, value: PATTERN_START }
    }

    /// Does the work of the current phase, moves to the next, and returns
    /// what the caller has to do before stepping again.
    pub fn step(&mut self) -> (action: PublisherAction)
        requires
            old(self).wf(),
        ensures
            final(self).wf(),
            (*final(self), action) == spec_step(*old(self)),
    {
        match self.phase {
            PublisherPhase::Idle => {
                self.phase = PublisherPhase::ComputeNext;
                PublisherAction::Proceed
            },
            PublisherPhase::ComputeNext => {
                self.value = successor(self.value);
                self.phase = PublisherPhase::Push;
                PublisherAction::Proceed
            },
            PublisherPhase::Push => {
                self.phase = PublisherPhase::Broadcast;
                PublisherAction::Push(self.value)
            },
            PublisherPhase::Broadcast => {
                self.phase = PublisherPhase::WaitInterval;
                PublisherAction::Publish(self.value)
            },
            PublisherPhase::WaitInterval => {
                self.phase = PublisherPhase::ComputeNext;
                PublisherAction::Wait(PUBLISH_INTERVAL_MS)
            },
        }
    }
}

/// What holds after any number of steps from the top of a cycle: the values
/// pushed and the values published are both the cycle that follows the
/// starting value, and the pushes are at most one value ahead.
pub open spec fn in_step(s: PublisherTask, n: nat) -> bool {
    let after = state_after(s, n);
    let pushed = pushes(trace(s, n));
    let published = publishes(trace(s, n));
    &&& after.wf()
    &&& pushed == cycle_from(s.value as int, pushed.len())
    &&& published == cycle_from(s.value as int, published.len())
    &&& pushed.len() == published.len() + if after.phase == PublisherPhase::Broadcast {
        1nat
    } else {
        0nat
    }
    &&& after.value == spec_nth(
        s.value as int,
        published.len() + if after.at_cycle_start() {
            0nat
        } else {
            1nat
        },
    )
}

/// `in_step` holds after every number of steps.
pub proof fn lemma_in_step(s: PublisherTask, n: nat)
    requires
        s.wf(),
        s.at_cycle_start(),
    ensures
        in_step(s, n),
    decreases n,
{
    let start = s.value as int;
    if n == 0 {
        assert(pushes(trace(s, 0)) =~= cycle_from(start, 0));
        assert(publishes(trace(s, 0)) =~= cycle_from(start, 0));
    } else {
        let m = (n - 1) as nat;
        lemma_in_step(s, m);
        let before = state_after(s, m);
        let earlier = trace(s, m);
        let action = spec_step(before).1;
        assert(trace(s, n).drop_last() =~= earlier);
        assert(trace(s, n).last() == action);
        let pushed = pushes(trace(s, n));
        let published = publishes(trace(s, n));
        crate::pattern::lemma_nth_closed_form(start, publishes(earlier).len());
        crate::pattern::lemma_nth_closed_form(start, publishes(earlier).len() + 1);
        assert(pushed =~= cycle_from(start, pushed.len()));
        assert(published =~= cycle_from(start, published.len()));
    }
}

/// Value for value, the waveform engine is pushed what the channel is given:
/// after any number of steps, the values published so far are the values
/// pushed so far, but for the one push whose publish is the very next step.
pub proof fn lemma_pushes_equal_publishes(s: PublisherTask, n: nat)
    requires
        s.wf(),
        s.at_cycle_start(),
    ensures
        publishes(trace(s, n)).len() <= pushes(trace(s, n)).len() <= publishes(trace(s, n)).len()
            + 1,
        publishes(trace(s, n)) == pushes(trace(s, n)).take(publishes(trace(s, n)).len() as int),
        state_after(s, n).phase != PublisherPhase::Broadcast ==> publishes(trace(s, n)) == pushes(
            trace(s, n),
        ),
{
    lemma_in_step(s, n);
    let pushed = pushes(trace(s, n));
    let published = publishes(trace(s, n));
    assert(published =~= pushed.take(published.len() as int));
    if state_after(s, n).phase != PublisherPhase::Broadcast {
        assert(published =~= pushed);
    }
}

/// The published values follow the cycle: each is the successor of the one
/// before, the first is the successor of the starting value, and the value
/// published sixteen places later is the same.
pub proof fn lemma_published_cycle(s: PublisherTask, n: nat, k: int)
    requires
        s.wf(),
        s.at_cycle_start(),
        0 <= k < publishes(trace(s, n)).len(),
    ensures
        publishes(trace(s, n))[k] == spec_nth(s.value as int, (k + 1) as nat),
        k == 0 ==> publishes(trace(s, n))[k] == spec_successor(s.value as int),
        k > 0 ==> publishes(trace(s, n))[k] == spec_successor(publishes(trace(s, n))[k - 1] as int),
        k + 16 < publishes(trace(s, n)).len() ==> publishes(trace(s, n))[k + 16] == publishes(
            trace(s, n),
        )[k],
{
    lemma_in_step(s, n);
    let start = s.value as int;
    crate::pattern::lemma_nth_closed_form(start, (k + 1) as nat);
    crate::pattern::lemma_nth_closed_form(start, k as nat);
    crate::pattern::lemma_periodic(start, (k + 1) as nat);
    if k == 0 {
        assert(spec_nth(start, 1) == spec_successor(spec_nth(start, 0)));
    }
}

} // verus!
