//! The whole system: start-up, and the steps that move values from the
//! publisher to the waveform engine and to the workers.
//!
//! Start-up brings up the waveform engine, spawns the publisher and the log
//! sink on the first core, then spawns the workers on the second core, each
//! of which takes a consumer handle on the broadcast channel. A failure
//! during start-up is returned to the caller, who is expected to halt.

use vstd::prelude::*;
use crate::channel::{deliver_all, BroadcastChannel};
use crate::engine::{WaveformEngine, ENGINE_QUEUE_DEPTH};
use crate::pattern::{spec_successor, PATTERN_START};
use crate::publisher::{PublisherAction, PublisherPhase, PublisherTask, PUBLISH_INTERVAL_MS};
use crate::relay::MAX_SUBSCRIBERS;
use crate::scheduler::{Scheduler, SchedulerView, TaskState};
use crate::worker::{next_beat, spec_next_beat, Worker, WorkerAction};

verus! {

/// Task slots of the scheduler on the first core: the publisher and the
/// log sink.
pub const CORE0_POOL_SIZE: usize = 2;

/// Task slots of the scheduler on the second core, and the number of
/// workers.
pub const WORKER_POOL_SIZE: usize = 16;

/// Milliseconds between two heartbeats of the launcher.
pub const MAIN_HEARTBEAT_MS: u64 = 5000;

/// Why start-up failed.
#[derive(Clone, Copy, Debug, PartialEq, Eq, Structural)]
pub enum StartupError {
    /// A task was spawned on a scheduler whose slots were all taken.
    SpawnCapacityExceeded,
    /// A worker asked for a consumer handle when the channel had none left.
    ChannelCapacityExceeded,
}

/// How many workers to start, on a scheduler with how many slots.
#[derive(Clone, Copy, Debug, PartialEq, Eq, Structural)]
pub struct LaunchConfig {
    /// The number of workers to spawn on the second core.
    pub workers: usize,
    /// The number of task slots of the second core's scheduler.
    pub pool_size: usize,
}

/// Why the publisher gave up the core.
#[derive(Clone, Copy, Debug, PartialEq, Eq, Structural)]
pub enum Suspension {
    /// The waveform engine's queue is full; nothing was pushed or published.
    EngineFull,
    /// The value was pushed and published; the task waits this many
    /// milliseconds.
    Interval(u64),
}

/// The system: both cores' schedulers, the tasks' states, and what the
/// cores share.
pub struct System {
    /// The waveform engine.
    pub engine: WaveformEngine,
    /// The broadcast channel.
    pub channel: BroadcastChannel,
    /// The publisher task, on the first core.
    pub publisher: PublisherTask,
    /// The workers, on the second core; worker `i` owns consumer `i`.
    pub workers: Vec<Worker>,
    /// The first core's scheduler.
    pub core0: Scheduler,
    /// The second core's scheduler.
    pub core1: Scheduler,
    /// The launcher's heartbeat counter.
    pub beats: u8,
}

/// What a system holds.
pub struct SystemView {
    /// Whether the engine's program is installed.
    pub engine_loaded: bool,
    /// The words that wait in the engine's queue.
    pub engine_queue: Seq<usize>,
    /// The level of the output pins.
    pub pins: usize,
    /// Each consumer's queue.
    pub queues: Seq<Seq<usize>>,
    /// The number of values published to at least one consumer.
    pub published: nat,
    /// The publisher task.
    pub publisher: PublisherTask,
    /// The workers.
    pub workers: Seq<Worker>,
    /// The first core's scheduler.
    pub core0: SchedulerView,
    /// The second core's scheduler.
    pub core1: SchedulerView,
    /// The launcher's heartbeat counter.
    pub beats: u8,
}

/// The number of the publisher task on the first core.
pub const PUBLISHER_TASK: usize = 0;

/// The number of the log sink's task on the first core.
pub const LOG_SINK_TASK: usize = 1;

/// What a run of the publisher leaves: with room in the engine's queue the
/// next value is in that queue and in every consumer's; without, only the
/// task itself has moved, to the push that it has yet to make.
pub open spec fn after_publisher(s: System) -> SystemView {
    let value = s.spec_due_value();
    if s@.engine_queue.len() >= ENGINE_QUEUE_DEPTH {
        SystemView {
            publisher: PublisherTask { phase: PublisherPhase::Push, value },
            ..s@
        }
    } else {
        SystemView {
            publisher: PublisherTask { phase: PublisherPhase::ComputeNext, value },
            engine_queue: s@.engine_queue.push(value),
            queues: deliver_all(s@.queues, value),
            published: s@.published + if s@.queues.len() == 0 {
                0nat
            } else {
                1nat
            },
            ..s@
        }
    }
}

/// A scheduler on which `tasks` tasks were spawned and none has run.
pub open spec fn all_ready(capacity: nat, tasks: nat) -> SchedulerView {
    SchedulerView {
        capacity,
        states: Seq::new(tasks, |i: int| TaskState::Ready),
        ready: Seq::new(tasks, |i: int| i as usize),
        running: None,
    }
}

/// A worker that holds its consumer handle and has done nothing else.
pub open spec fn subscribed_worker(id: usize) -> Worker {
    Worker { id, subscribed: true, beat_due: true, beats: 0 }
}

/// The state in which start-up leaves the system.
pub open spec fn initial_view(config: LaunchConfig) -> SystemView {
    SystemView {
        engine_loaded: true,
        engine_queue: Seq::empty(),
        pins: 0,
        queues: Seq::new(config.workers as nat, |i: int| Seq::empty()),
        published: 0,
        publisher: PublisherTask { phase: PublisherPhase::Idle, value: PATTERN_START },
        workers: Seq::new(config.workers as nat, |i: int| subscribed_worker(i as usize)),
        core0: all_ready(CORE0_POOL_SIZE as nat, CORE0_POOL_SIZE as nat),
        core1: all_ready(config.pool_size as nat, config.workers as nat),
        beats: 0,
    }
}

impl View for System {
    type V = SystemView;

    open spec fn view(&self) -> SystemView {
        SystemView {
            engine_loaded: self.engine.spec_loaded(),
            engine_queue: self.engine.spec_queue(),
            pins: self.engine.spec_pins(),
            queues: self.channel@,
            published: self.channel.spec_published(),
            publisher: self.publisher,
            workers: self.workers@,
            core0: self.core0@,
            core1: self.core1@,
            beats: self.beats,
        }
    }
}

impl LaunchConfig {
    /// Sixteen workers on sixteen slots.
    pub fn standard() -> (config: Self)
        ensures
            config == (LaunchConfig { workers: WORKER_POOL_SIZE, pool_size: WORKER_POOL_SIZE }),
    {
        LaunchConfig { workers: WORKER_POOL_SIZE, pool_size: WORKER_POOL_SIZE }
    }
}

impl System {
    /// Every part is well formed, the engine is loaded, and each worker has
    /// its consumer.
    pub open spec fn wf(&self) -> bool {
        &&& self.engine.wf()
        &&& self.engine.spec_loaded()
        &&& self.channel.wf()
        &&& self.publisher.wf()
        &&& self.core0.wf()
        &&& self.core1.wf()
        &&& self.workers@.len() == self.channel@.len()
        &&& forall|i: int| 0 <= i < self.workers@.len() ==> (#[trigger] self.workers@[i]).subscribed
        &&& self.core0@.states.len() == CORE0_POOL_SIZE
        &&& self.core1@.states.len() == self.workers@.len()
    }

    /// The value that the publisher pushes and publishes next: the one it
    /// has computed if a push is outstanding, else the successor of the one it
    /// holds.
    pub open spec fn spec_due_value(&self) -> usize {
        if self.publisher.phase == PublisherPhase::Push {
            self.publisher.value
        } else {
            spec_successor(self.publisher.value as int) as usize
        }
    }

    /// Whether the publisher is where `run_publisher` takes it up: not
    /// started, about to compute, or about to push.
    pub open spec fn publisher_resting(&self) -> bool {
        self.publisher.phase == PublisherPhase::Idle || self.publisher.phase
            == PublisherPhase::ComputeNext || self.publisher.phase == PublisherPhase::Push
    }

    /// Runs the start-up sequence. It fails with `SpawnCapacityExceeded` if
    /// there are more workers than slots, else with `ChannelCapacityExceeded`
    /// if there are more workers than the channel has consumer handles; else
    /// it returns the system in its initial state, which depends on the
    /// configuration alone.
    pub fn boot(config: LaunchConfig) -> (res: Result<System, StartupError>)
        ensures
            config.workers > config.pool_size ==> res == Err::<System, StartupError>(
                StartupError::SpawnCapacityExceeded,
            ),
            config.workers <= config.pool_size && config.workers > MAX_SUBSCRIBERS ==> res == Err::<
                System,
                StartupError,
            >(StartupError::ChannelCapacityExceeded),
            config.workers <= config.pool_size && config.workers <= MAX_SUBSCRIBERS ==> res.is_ok()
                && res.unwrap().wf() && res.unwrap()@ == initial_view(config),
    {
        let mut engine = WaveformEngine::new();
        engine.load();

        let mut core0 = Scheduler::new(CORE0_POOL_SIZE);
        let publisher = PublisherTask::new();
        if core0.spawn().is_err() {
            return Err(StartupError::SpawnCapacityExceeded);
        }
        if core0.spawn().is_err() {
            return Err(StartupError::SpawnCapacityExceeded);
        }
        assert(core0@.states =~= all_ready(2, 2).states);
        assert(core0@.ready =~= all_ready(2, 2).ready);

        let mut core1 = Scheduler::new(config.pool_size);
        let mut workers: Vec<Worker> = Vec::new();
        let mut spawned: usize = 0;
        assert(core1@.states =~= all_ready(config.pool_size as nat, 0).states);
        assert(core1@.ready =~= all_ready(config.pool_size as nat, 0).ready);
        while spawned < config.workers
            invariant
                spawned <= config.workers,
                spawned <= config.pool_size,
                core1.wf(),
                core1@ == all_ready(config.pool_size as nat, spawned as nat),
                workers@.len() == spawned,
                forall|i: int| 0 <= i < spawned ==> workers@[i] == crate::worker::spec_fresh(i as usize),
            decreases config.workers - spawned,
        {
            match core1.spawn() {
                Ok(_) => {},
                Err(_) => {
                    return Err(StartupError::SpawnCapacityExceeded);
                },
            }
            workers.push(Worker::new(spawned));
            spawned = spawned + 1;
            assert(core1@.states =~= all_ready(config.pool_size as nat, spawned as nat).states);
            assert(core1@.ready =~= all_ready(config.pool_size as nat, spawned as nat).ready);
        }

        let mut channel = BroadcastChannel::new();
        let mut joined: usize = 0;
        assert(channel@ =~= Seq::new(0, |i: int| Seq::<usize>::empty()));
        while joined < config.workers
            invariant
                joined <= config.workers,
                joined <= MAX_SUBSCRIBERS,
                config.workers <= config.pool_size,
                channel.wf(),
                channel.spec_published() == 0,
                channel@ == Seq::new(joined as nat, |i: int| Seq::<usize>::empty()),
                workers@.len() == config.workers,
                forall|i: int|
                    0 <= i < joined ==> workers@[i] == subscribed_worker(i as usize),
                forall|i: int|
                    joined <= i < config.workers ==> workers@[i] == crate::worker::spec_fresh(
                        i as usize,
                    ),
            decreases config.workers - joined,
        {
            let mut worker = workers[joined];
            let _ = worker.consumer_step();
            match channel.subscribe() {
                Ok(_) => {},
                Err(_) => {
                    return Err(StartupError::ChannelCapacityExceeded);
                },
            }
            workers[joined] = worker;
            joined = joined + 1;
            assert(channel@ =~= Seq::new(joined as nat, |i: int| Seq::<usize>::empty()));
        }

        let system = System { engine, channel, publisher, workers, core0, core1, beats: 0 };
        assert(system@.workers =~= initial_view(config).workers);
        assert(system@.queues =~= initial_view(config).queues);
        Ok(system)
    }

    /// Runs the start-up sequence with sixteen workers on sixteen slots,
    /// which cannot fail.
    pub fn start() -> (res: Result<System, StartupError>)
        ensures
            res.is_ok(),
            res.unwrap().wf(),
            res.unwrap()@ == initial_view(
                LaunchConfig { workers: WORKER_POOL_SIZE, pool_size: WORKER_POOL_SIZE },
            ),
    {
        System::boot(LaunchConfig::standard())
    }

    /// Runs the publisher task until it suspends. If the engine's queue has
    /// room, the next value of the cycle is pushed to the engine and
    /// delivered to every consumer, the same value to both, and the task
    /// waits for the interval. If the queue is full, nothing is pushed or
    /// published, and the task takes the push up again when it next runs.
    pub fn run_publisher(&mut self) -> (why: Suspension)
        requires
            old(self).wf(),
            old(self).publisher_resting(),
            old(self)@.published < u64::MAX,
        ensures
            final(self).wf(),
            final(self).publisher_resting(),
            final(self)@ == after_publisher(*old(self)),
            old(self)@.engine_queue.len() >= ENGINE_QUEUE_DEPTH ==> why == Suspension::EngineFull,
            old(self)@.engine_queue.len() < ENGINE_QUEUE_DEPTH ==> why == Suspension::Interval(
                PUBLISH_INTERVAL_MS,
            ),
    {
        let ghost value = self.spec_due_value();
        let ghost start = self@;
        loop
            invariant
                self.wf(),
                old(self).wf(),
                start == old(self)@,
                value == old(self).spec_due_value(),
                self@.pins == start.pins,
                self@.workers == start.workers,
                self@.core0 == start.core0,
                self@.core1 == start.core1,
                self@.beats == start.beats,
                start.published < u64::MAX,
                self.publisher.phase == PublisherPhase::Idle || self.publisher.phase
                    == PublisherPhase::ComputeNext ==> self@.engine_queue == start.engine_queue
                    && self@.queues == start.queues && self@.published == start.published && value
                    == spec_successor(self.publisher.value as int),
                self.publisher.phase != PublisherPhase::Idle && self.publisher.phase
                    != PublisherPhase::ComputeNext ==> self.publisher.value == value,
                self.publisher.phase == PublisherPhase::Push ==> self@.engine_queue
                    == start.engine_queue && self@.queues == start.queues && self@.published
                    == start.published,
                self.publisher.phase == PublisherPhase::Broadcast || self.publisher.phase
                    == PublisherPhase::WaitInterval ==> start.engine_queue.len()
                    < ENGINE_QUEUE_DEPTH && self@.engine_queue == start.engine_queue.push(value),
                self.publisher.phase == PublisherPhase::Broadcast ==> self@.queues == start.queues
                    && self@.published == start.published,
                self.publisher.phase == PublisherPhase::WaitInterval ==> self@.queues
                    == deliver_all(start.queues, value) && self@.published == start.published
                    + if start.queues.len() == 0 {
                    0nat
                } else {
                    1nat
                },
            decreases
                    match self.publisher.phase {
                        PublisherPhase::Idle => 5int,
                        PublisherPhase::ComputeNext => 4int,
                        PublisherPhase::Push => 3int,
                        PublisherPhase::Broadcast => 2int,
                        PublisherPhase::WaitInterval => 1int,
                    },
        {
            let full = self.engine.queued() >= ENGINE_QUEUE_DEPTH;
            if full {
                match self.publisher.phase {
                    PublisherPhase::Push => {
                        return Suspension::EngineFull;
                    },
                    _ => {},
                }
            }
            match self.publisher.step() {
                PublisherAction::Proceed => {},
                PublisherAction::Push(v) => {
                    let _ = self.engine.try_push(v);
                },
                PublisherAction::Publish(v) => {
                    self.channel.publish(v);
                },
                PublisherAction::Wait(ms) => {
                    return Suspension::Interval(ms);
                },
            }
        }
    }

    /// Runs the consumer loop of one worker until it suspends: the worker
    /// takes every value out of its queue, drops it, and waits for the next.
    /// Returns the number of values dropped.
    pub fn run_consumer(&mut self, worker: usize) -> (taken: usize)
        requires
            old(self).wf(),
            worker < old(self)@.workers.len(),
        ensures
            final(self).wf(),
            taken == old(self)@.queues[worker as int].len(),
            final(self)@ == (SystemView {
                queues: old(self)@.queues.update(worker as int, Seq::empty()),
                ..old(self)@
            }),
    {
        let ghost start = self@;
        let ghost queue = start.queues[worker as int];
        let mut taken: usize = 0;
        proof {
            self.channel.lemma_bounded();
            assert(queue.skip(0) =~= queue);
            assert(self@.queues =~= start.queues.update(worker as int, queue.skip(0)));
        }
        loop
            invariant
                self.wf(),
                start == old(self)@,
                worker < start.workers.len(),
                start.workers.len() == start.queues.len(),
                queue == start.queues[worker as int],
                queue.len() <= crate::relay::QUEUE_DEPTH,
                taken <= queue.len(),
                self@ == (SystemView {
                    queues: start.queues.update(worker as int, queue.skip(taken as int)),
                    ..start
                }),
            decreases queue.len() - taken,
        {
            let mut state = self.workers[worker];
            let _ = state.consumer_step();
            match self.channel.try_next(worker) {
                Some(_) => {
                    taken = taken + 1;
                    proof {
                        assert(queue.skip(taken - 1).drop_first() =~= queue.skip(taken as int));
                        assert(self@.queues =~= start.queues.update(
                            worker as int,
                            queue.skip(taken as int),
                        ));
                    }
                },
                None => {
                    proof {
                        assert(queue.skip(taken as int) =~= Seq::<usize>::empty());
                    }
                    return taken;
                },
            }
        }
    }

    /// One round of the first core's scheduler: the task that has been
    /// ready longest, if any, runs until it suspends. The publisher, task 0,
    /// runs as `run_publisher` says; the log sink, task 1, changes nothing
    /// that the system holds. Returns the task that ran.
    pub fn run_core0(&mut self) -> (ran: Option<usize>)
        requires
            old(self).wf(),
            old(self).publisher_resting(),
            old(self)@.published < u64::MAX,
            old(self)@.core0.running.is_none(),
        ensures
            final(self).wf(),
            final(self).publisher_resting(),
            final(self)@.core0.running.is_none(),
            old(self)@.core0.ready.len() == 0 ==> ran.is_none() && final(self)@ == old(self)@,
            old(self)@.core0.ready.len() > 0 ==> ran == Some(old(self)@.core0.ready[0])
                && final(self)@.core0 == (SchedulerView {
                states: old(self)@.core0.states.update(
                    old(self)@.core0.ready[0] as int,
                    TaskState::Suspended,
                ),
                ready: old(self)@.core0.ready.drop_first(),
                ..old(self)@.core0
            }),
            ran.is_some() && ran != Some(PUBLISHER_TASK) ==> final(self)@ == (SystemView {
                core0: final(self)@.core0,
                ..old(self)@
            }),
            ran == Some(PUBLISHER_TASK) ==> final(self)@ == (SystemView {
                core0: final(self)@.core0,
                ..after_publisher(*old(self))
            }),
    {
        match self.core0.dispatch() {
            None => None,
            Some(task) => {
                if task == PUBLISHER_TASK {
                    let _ = self.run_publisher();
                }
                self.core0.suspend();
                proof {
                    let was = old(self)@.core0;
                    assert(self@.core0.states =~= was.states.update(
                        was.ready[0] as int,
                        TaskState::Suspended,
                    ));
                }
                Some(task)
            },
        }
    }

    /// One round of the second core's scheduler: the worker that has been
    /// ready longest, if any, drains its consumer queue and suspends.
    /// Returns the worker that ran.
    pub fn run_core1(&mut self) -> (ran: Option<usize>)
        requires
            old(self).wf(),
            old(self)@.core1.running.is_none(),
        ensures
            final(self).wf(),
            old(self)@.core1.ready.len() == 0 ==> ran.is_none() && final(self)@ == old(self)@,
            old(self)@.core1.ready.len() > 0 ==> ran == Some(old(self)@.core1.ready[0])
                && final(self)@ == (SystemView {
                queues: old(self)@.queues.update(old(self)@.core1.ready[0] as int, Seq::empty()),
                core1: SchedulerView {
                    states: old(self)@.core1.states.update(
                        old(self)@.core1.ready[0] as int,
                        TaskState::Suspended,
                    ),
                    ready: old(self)@.core1.ready.drop_first(),
                    ..old(self)@.core1
                },
                ..old(self)@
            }),
    {
        match self.core1.dispatch() {
            None => None,
            Some(worker) => {
                let _ = self.run_consumer(worker);
                self.core1.suspend();
                proof {
                    let was = old(self)@.core1;
                    assert(self@.core1.states =~= was.states.update(
                        was.ready[0] as int,
                        TaskState::Suspended,
                    ));
                }
                Some(worker)
            },
        }
    }

    /// Runs the heartbeat loop of one worker for one step: it reports, or it
    /// waits, in turn.
    pub fn run_heartbeat(&mut self, worker: usize) -> (action: WorkerAction)
        requires
            old(self).wf(),
            worker < old(self)@.workers.len(),
        ensures
            final(self).wf(),
            action == crate::worker::spec_heartbeat_action(old(self)@.workers[worker as int]),
            final(self)@ == (SystemView {
                workers: old(self)@.workers.update(
                    worker as int,
                    Worker {
                        beat_due: !old(self)@.workers[worker as int].beat_due,
                        beats: if old(self)@.workers[worker as int].beat_due {
                            spec_next_beat(old(self)@.workers[worker as int].beats)
                        } else {
                            old(self)@.workers[worker as int].beats
                        },
                        ..old(self)@.workers[worker as int]
                    },
                ),
                ..old(self)@
            }),
    {
        let mut state = self.workers[worker];
        let action = state.heartbeat_step();
        self.workers[worker] = state;
        proof {
            assert(self@.workers =~= old(self)@.workers.update(worker as int, state));
        }
        action
    }

    /// One heartbeat of the launcher: returns the number to report and
    /// counts one up, modulo 256.
    pub fn heartbeat(&mut self) -> (beat: u8)
        requires
            old(self).wf(),
        ensures
            final(self).wf(),
            beat == old(self)@.beats,
            final(self)@ == (SystemView { beats: spec_next_beat(old(self)@.beats), ..old(self)@ }),
    {
        let beat = self.beats;
        self.beats = next_beat(beat);
        beat
    }
}

/// Two runs of the start-up sequence with the same configuration leave the
/// same state.
pub proof fn lemma_start_reproducible(first: System, second: System, config: LaunchConfig)
    requires
        first@ == initial_view(config),
        second@ == initial_view(config),
    ensures
        first@ == second@,
        first@.publisher.value == PATTERN_START,
        first@.published == 0,
        first@.beats == 0,
        forall|i: int| 0 <= i < first@.queues.len() ==> (#[trigger] first@.queues[i]).len() == 0,
        forall|i: int| 0 <= i < first@.workers.len() ==> (#[trigger] first@.workers[i]).beats == 0,
{
}

} // verus!
