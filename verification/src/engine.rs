//! The waveform engine: a hardware state machine that takes queued 4-bit
//! words and drives them onto four output pins at its own clock rate.
//!
//! The engine runs a fixed two-step program, wait for a word, then shift its
//! four bits out, which is installed once and never changed. This is the
//! software's view of it: an input queue of bounded depth, filled by `try_push`
//! and emptied, one word per tick, by the engine itself.

use vstd::prelude::*;
use crate::pattern::is_pattern;

verus! {

/// Words the engine's input queue holds at most.
pub const ENGINE_QUEUE_DEPTH: usize = 4;

/// The engine, as software sees it.
pub struct WaveformEngine {
    loaded: bool,
    queue: Vec<usize>,
    pins: usize,
}

impl WaveformEngine {
    /// Whether the program has been installed.
    pub closed spec fn spec_loaded(&self) -> bool {
        self.loaded
    }

    /// The words that wait to be shifted out, oldest first.
    pub closed spec fn spec_queue(&self) -> Seq<usize> {
        self.queue@
    }

    /// The level of the four output pins, as a number.
    pub closed spec fn spec_pins(&self) -> usize {
        self.pins
    }

    /// The queue is within its depth, and the queue and the pins hold 4-bit
    /// values only.
    pub closed spec fn wf(&self) -> bool {
        &&& self.queue@.len() <= ENGINE_QUEUE_DEPTH
        &&& is_pattern(self.pins as int)
        &&& forall|i: int| 0 <= i < self.queue@.len() ==> is_pattern(#[trigger] self.queue@[i] as int)
    }

    /// What `wf` says, in terms of the public model.
    pub proof fn lemma_bounded(&self)
        requires
            self.wf(),
        ensures
            self.spec_queue().len() <= ENGINE_QUEUE_DEPTH,
            is_pattern(self.spec_pins() as int),
            forall|i: int|
                0 <= i < self.spec_queue().len() ==> is_pattern(#[trigger] self.spec_queue()[i] as int),
    {
    }

    /// The engine after reset: no program, nothing queued, all pins low.
    pub fn new() -> (engine: Self)
        ensures
            engine.wf(),
            !engine.spec_loaded(),
            engine.spec_queue() == Seq::<usize>::empty(),
            engine.spec_pins() == 0,
    {
        WaveformEngine { loaded: false, queue: Vec::new(), pins: 0 }
    }

    /// Installs the shift-out program. This is done once, before the first
    /// push.
    pub fn load(&mut self)
        requires
            old(self).wf(),
            !old(self).spec_loaded(),
        ensures
            final(self).wf(),
            final(self).spec_loaded(),
            final(self).spec_queue() == old(self).spec_queue(),
            final(self).spec_pins() == old(self).spec_pins(),
    {
        self.loaded = true;
    }

    /// Whether the program has been installed.
    pub fn is_loaded(&self) -> (loaded: bool)
        ensures
            loaded == self.spec_loaded(),
    {
        self.loaded
    }

    /// The number of words that wait to be shifted out.
    pub fn queued(&self) -> (n: usize)
        ensures
            n == self.spec_queue().len(),
    {
        self.queue.len()
    }

    /// The level of the four output pins, as a number.
    pub fn pins(&self) -> (level: usize)
        ensures
            level == self.spec_pins(),
    {
        self.pins
    }

    /// Queues `value` behind the words that wait, if there is room, and says
    /// whether it did. When the queue is full nothing changes; the caller
    /// is to suspend and try again once the engine has taken a word.
    pub fn try_push(&mut self, value: usize) -> (accepted: bool)
        requires
            old(self).wf(),
            old(self).spec_loaded(),
            is_pattern(value as int),
        ensures
            final(self).wf(),
            final(self).spec_loaded(),
            final(self).spec_pins() == old(self).spec_pins(),
            accepted <==> old(self).spec_queue().len() < ENGINE_QUEUE_DEPTH,
            accepted ==> final(self).spec_queue() == old(self).spec_queue().push(value),
            !accepted ==> final(self).spec_queue() == old(self).spec_queue(),
    {
        if self.queue.len() < ENGINE_QUEUE_DEPTH {
            self.queue.push(value);
            true
        } else {
            false
        }
    }

    /// One tick of the engine's own clock: the oldest queued word, if there is
    /// one and the program is installed, leaves the queue and appears on the
    /// pins, and is returned. Otherwise the engine stalls and the pins keep
    /// their level.
    pub fn tick(&mut self) -> (shifted: Option<usize>)
        requires
            old(self).wf(),
        ensures
            final(self).wf(),
            final(self).spec_loaded() == old(self).spec_loaded(),
            old(self).spec_loaded() && old(self).spec_queue().len() > 0 ==> shifted == Some(
                old(self).spec_queue()[0],
            ) && final(self).spec_queue() == old(self).spec_queue().drop_first()
                && final(self).spec_pins() == old(self).spec_queue()[0],
            !(old(self).spec_loaded() && old(self).spec_queue().len() > 0) ==> shifted.is_none()
                && final(self).spec_queue() == old(self).spec_queue() && final(self).spec_pins()
                == old(self).spec_pins(),
    {
        if self.loaded && self.queue.len() > 0 {
            let word = self.queue.remove(0);
            self.pins = word;
            assert(self.queue@ =~= old(self).queue@.drop_first());
            Some(word)
        } else {
            None
        }
    }
}

} // verus!
