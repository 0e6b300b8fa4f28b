//! The cooperative scheduler of one core.
//!
//! A scheduler owns a fixed number of task slots. A spawned task is ready;
//! the scheduler runs one ready task at a time, in the order in which they
//! became ready, until the task suspends of its own accord. An event wakes
//! a suspended task, which then queues up behind those already ready.

use vstd::prelude::*;

verus! {

/// Where a task is in its life.
#[derive(Clone, Copy, Debug, PartialEq, Eq, Structural)]
pub enum TaskState {
    /// Waiting for its turn to run.
    Ready,
    /// In control of the core.
    Running,
    /// Waiting for a timer, a message or the hardware.
    Suspended,
    /// Finished; never runs again.
    Completed,
}

/// Why a task could not be spawned.
#[derive(Clone, Copy, Debug, PartialEq, Eq, Structural)]
pub enum SpawnError {
    /// Every task slot of the scheduler is taken.
    PoolExhausted,
}

/// What a scheduler holds.
pub struct SchedulerView {
    /// The number of task slots.
    pub capacity: nat,
    /// The state of each task, in the order of spawning.
    pub states: Seq<TaskState>,
    /// The ready tasks, the one to run next first.
    pub ready: Seq<usize>,
    /// The task in control of the core, if any.
    pub running: Option<usize>,
}

/// Whether a task may pass from one state to the other in one operation of
/// the scheduler, or stay as it is.
pub open spec fn legal_step(from: TaskState, to: TaskState) -> bool {
    ||| from == to
    ||| from == TaskState::Ready && to == TaskState::Running
    ||| from == TaskState::Running && to == TaskState::Suspended
    ||| from == TaskState::Running && to == TaskState::Completed
    ||| from == TaskState::Suspended && to == TaskState::Ready
}

/// Whether every task that `from` knows is in a state in `to` that it may
/// pass to.
pub open spec fn legal_steps(from: Seq<TaskState>, to: Seq<TaskState>) -> bool {
    &&& from.len() <= to.len()
    &&& forall|i: int| 0 <= i < from.len() ==> legal_step(#[trigger] from[i], to[i])
}

/// Whether an event wakes task `i`: it is named in `due` and suspended.
pub open spec fn wakes(states: Seq<TaskState>, due: Seq<bool>, i: int) -> bool {
    0 <= i < states.len() && i < due.len() && due[i] && states[i] == TaskState::Suspended
}

/// The tasks among the first `n` that an event wakes, earliest spawned first.
pub open spec fn woken(states: Seq<TaskState>, due: Seq<bool>, n: nat) -> Seq<usize>
    decreases n,
{
    if n == 0 {
        Seq::empty()
    } else if wakes(states, due, n - 1) {
        woken(states, due, (n - 1) as nat).push((n - 1) as usize)
    } else {
        woken(states, due, (n - 1) as nat)
    }
}

/// The states after an event has woken the tasks among the first `n` that it
/// wakes.
pub open spec fn states_after_wake(states: Seq<TaskState>, due: Seq<bool>, n: nat) -> Seq<
    TaskState,
> {
    Seq::new(
        states.len(),
        |i: int|
            if i < n && wakes(states, due, i) {
                TaskState::Ready
            } else {
                states[i]
            },
    )
}

/// The woken tasks are exactly those that the event wakes, each once, in
/// the order of spawning.
pub proof fn lemma_woken(states: Seq<TaskState>, due: Seq<bool>, n: nat)
    requires
        n <= states.len(),
        states.len() <= usize::MAX,
    ensures
        forall|j: int|
            0 <= j < woken(states, due, n).len() ==> (#[trigger] woken(states, due, n)[j]) < n
                && wakes(states, due, woken(states, due, n)[j] as int),
        forall|i: int|
            0 <= i < n && wakes(states, due, i) ==> woken(states, due, n).contains(i as usize),
        forall|a: int, b: int|
            0 <= a < b < woken(states, due, n).len() ==> woken(states, due, n)[a] < woken(
                states,
                due,
                n,
            )[b],
    decreases n,
{
    if n > 0 {
        let m = (n - 1) as nat;
        lemma_woken(states, due, m);
        let before = woken(states, due, m);
        let now = woken(states, due, n);
        if wakes(states, due, n - 1) {
            assert(now[before.len() as int] == (n - 1) as usize);
            assert forall|i: int| 0 <= i < n && wakes(states, due, i) implies now.contains(
                i as usize,
            ) by {
                if i < n - 1 {
                    let j = choose|j: int| 0 <= j < before.len() && before[j] == i as usize;
                    assert(now[j] == i as usize);
                }
            }
        }
    }
}

/// A scheduler.
pub struct Scheduler {
    capacity: usize,
    states: Vec<TaskState>,
    ready: Vec<usize>,
    running: Option<usize>,
}

impl View for Scheduler {
    type V = SchedulerView;

    closed spec fn view(&self) -> SchedulerView {
        SchedulerView {
            capacity: self.capacity as nat,
            states: self.states@,
            ready: self.ready@,
            running: self.running,
        }
    }
}

/// The queue holds the ready tasks and nothing else, each once; the running
/// task, if there is one, is the only one in that state; and no more tasks
/// exist than there are slots.
pub open spec fn coherent(v: SchedulerView) -> bool {
    &&& v.states.len() <= v.capacity
    &&& v.capacity <= usize::MAX
    &&& v.ready.no_duplicates()
    &&& forall|j: int|
        0 <= j < v.ready.len() ==> (#[trigger] v.ready[j]) < v.states.len()
            && v.states[v.ready[j] as int] == TaskState::Ready
    &&& forall|i: int|
        0 <= i < v.states.len() && #[trigger] v.states[i] == TaskState::Ready ==> v.ready.contains(
            i as usize,
        )
    &&& forall|i: int|
        0 <= i < v.states.len() && #[trigger] v.states[i] == TaskState::Running ==> v.running
            == Some(i as usize)
    &&& v.running.is_some() ==> v.running.unwrap() < v.states.len()
        && v.states[v.running.unwrap() as int] == TaskState::Running
}

impl Scheduler {
    /// What holds of every scheduler.
    pub open spec fn wf(&self) -> bool {
        coherent(self@)
    }

    /// A scheduler with `capacity` free task slots.
    pub fn new(capacity: usize) -> (scheduler: Self)
        ensures
            scheduler.wf(),
            scheduler@ == (SchedulerView {
                capacity: capacity as nat,
                states: Seq::empty(),
                ready: Seq::empty(),
                running: None,
            }),
    {
        Scheduler { capacity, states: Vec::new(), ready: Vec::new(), running: None }
    }

    /// The number of task slots.
    pub fn capacity(&self) -> (n: usize)
        ensures
            n == self@.capacity,
    {
        self.capacity
    }

    /// The number of tasks spawned so far.
    pub fn task_count(&self) -> (n: usize)
        ensures
            n == self@.states.len(),
    {
        self.states.len()
    }

    /// The number of tasks that wait for their turn.
    pub fn ready_count(&self) -> (n: usize)
        ensures
            n == self@.ready.len(),
    {
        self.ready.len()
    }

    /// The task in control of the core, if any.
    pub fn running(&self) -> (task: Option<usize>)
        ensures
            task == self@.running,
    {
        self.running
    }

    /// The state of a task.
    pub fn state(&self, task: usize) -> (state: TaskState)
        requires
            task < self@.states.len(),
        ensures
            state == self@.states[task as int],
    {
        self.states[task]
    }

    /// Registers a new task, ready to run, behind the tasks that are ready
    /// already, and returns its number; fails, changing nothing, if every
    /// slot is taken.
    pub fn spawn(&mut self) -> (res: Result<usize, SpawnError>)
        requires
            old(self).wf(),
        ensures
            final(self).wf(),
            old(self)@.states.len() < old(self)@.capacity ==> res == Ok::<usize, SpawnError>(
                old(self)@.states.len() as usize,
            ) && final(self)@ == (SchedulerView {
                states: old(self)@.states.push(TaskState::Ready),
                ready: old(self)@.ready.push(old(self)@.states.len() as usize),
                ..old(self)@
            }),
            old(self)@.states.len() >= old(self)@.capacity ==> res == Err::<usize, SpawnError>(
                SpawnError::PoolExhausted,
            ) && final(self)@ == old(self)@,
            legal_steps(old(self)@.states, final(self)@.states),
    {
        if self.states.len() < self.capacity {
            let task = self.states.len();
            self.states.push(TaskState::Ready);
            self.ready.push(task);
            proof {
                let was = old(self)@.ready;
                let now = self@.ready;
                assert forall|i: int|
                    0 <= i < self@.states.len() && #[trigger] self@.states[i]
                        == TaskState::Ready implies now.contains(i as usize) by {
                    if i < task {
                        let j = choose|j: int| 0 <= j < was.len() && was[j] == i as usize;
                        assert(now[j] == i as usize);
                    } else {
                        assert(now[was.len() as int] == i as usize);
                    }
                }
            }
            Ok(task)
        } else {
            Err(SpawnError::PoolExhausted)
        }
    }

    /// Gives the core to the task that has been ready longest and returns
    /// its number, or returns `None`, changing nothing, if no task is ready.
    pub fn dispatch(&mut self) -> (task: Option<usize>)
        requires
            old(self).wf(),
            old(self)@.running.is_none(),
        ensures
            final(self).wf(),
            old(self)@.ready.len() == 0 ==> task.is_none() && final(self)@ == old(self)@,
            old(self)@.ready.len() > 0 ==> task == Some(old(self)@.ready[0]) && final(self)@ == (
            SchedulerView {
                states: old(self)@.states.update(old(self)@.ready[0] as int, TaskState::Running),
                ready: old(self)@.ready.drop_first(),
                running: Some(old(self)@.ready[0]),
                ..old(self)@
            }),
            legal_steps(old(self)@.states, final(self)@.states),
    {
        if self.ready.len() == 0 {
            None
        } else {
            let task = self.ready.remove(0);
            self.states[task] = TaskState::Running;
            self.running = Some(task);
            proof {
                let was = old(self)@.ready;
                let now = self@.ready;
                assert(now =~= was.drop_first());
                assert forall|i: int|
                    0 <= i < self@.states.len() && #[trigger] self@.states[i]
                        == TaskState::Ready implies now.contains(i as usize) by {
                    let j = choose|j: int| 0 <= j < was.len() && was[j] == i as usize;
                    assert(now[j - 1] == i as usize);
                }
                assert forall|j: int| 0 <= j < now.len() implies (#[trigger] now[j])
                    < self@.states.len() && self@.states[now[j] as int] == TaskState::Ready by {
                    assert(now[j] == was[j + 1]);
                }
            }
            Some(task)
        }
    }

    /// The running task gives up the core to wait for an event.
    pub fn suspend(&mut self)
        requires
            old(self).wf(),
            old(self)@.running.is_some(),
        ensures
            final(self).wf(),
            final(self)@ == (SchedulerView {
                states: old(self)@.states.update(
                    old(self)@.running.unwrap() as int,
                    TaskState::Suspended,
                ),
                running: None,
                ..old(self)@
            }),
            legal_steps(old(self)@.states, final(self)@.states),
    {
        let task = self.running.unwrap();
        self.states[task] = TaskState::Suspended;
        self.running = None;
        proof {
            self.lemma_queue_kept(*old(self));
        }
    }

    /// The running task ends.
    pub fn complete(&mut self)
        requires
            old(self).wf(),
            old(self)@.running.is_some(),
        ensures
            final(self).wf(),
            final(self)@ == (SchedulerView {
                states: old(self)@.states.update(
                    old(self)@.running.unwrap() as int,
                    TaskState::Completed,
                ),
                running: None,
                ..old(self)@
            }),
            legal_steps(old(self)@.states, final(self)@.states),
    {
        let task = self.running.unwrap();
        self.states[task] = TaskState::Completed;
        self.running = None;
        proof {
            self.lemma_queue_kept(*old(self));
        }
    }

    /// A queue that has not changed still holds every ready task, when no
    /// task has become ready.
    proof fn lemma_queue_kept(&self, before: Scheduler)
        requires
            before.wf(),
            self@.ready == before@.ready,
            self@.states.len() == before@.states.len(),
            forall|i: int|
                0 <= i < self@.states.len() ==> (self@.states[i] == TaskState::Ready
                    <==> before@.states[i] == TaskState::Ready),
        ensures
            forall|i: int|
                0 <= i < self@.states.len() && #[trigger] self@.states[i] == TaskState::Ready
                    ==> self@.ready.contains(i as usize),
            forall|j: int|
                0 <= j < self@.ready.len() ==> (#[trigger] self@.ready[j]) < self@.states.len()
                    && self@.states[self@.ready[j] as int] == TaskState::Ready,
    {
        assert forall|i: int|
            0 <= i < self@.states.len() && #[trigger] self@.states[i]
                == TaskState::Ready implies self@.ready.contains(i as usize) by {
            assert(before@.states[i] == TaskState::Ready);
        }
    }

    /// An event for one task: if the task is suspended it becomes ready,
    /// behind the tasks that are ready already. Says whether it did.
    pub fn wake(&mut self, task: usize) -> (woke: bool)
        requires
            old(self).wf(),
            task < old(self)@.states.len(),
        ensures
            final(self).wf(),
            woke <==> old(self)@.states[task as int] == TaskState::Suspended,
            woke ==> final(self)@ == (SchedulerView {
                states: old(self)@.states.update(task as int, TaskState::Ready),
                ready: old(self)@.ready.push(task),
                ..old(self)@
            }),
            !woke ==> final(self)@ == old(self)@,
            legal_steps(old(self)@.states, final(self)@.states),
    {
        match self.states[task] {
            TaskState::Suspended => {
                self.states[task] = TaskState::Ready;
                self.ready.push(task);
                proof {
                    let was = old(self)@.ready;
                    let now = self@.ready;
                    assert forall|i: int|
                        0 <= i < self@.states.len() && #[trigger] self@.states[i]
                            == TaskState::Ready implies now.contains(i as usize) by {
                        if i != task {
                            assert(old(self)@.states[i] == TaskState::Ready);
                            let j = choose|j: int| 0 <= j < was.len() && was[j] == i as usize;
                            assert(now[j] == i as usize);
                        } else {
                            assert(now[was.len() as int] == i as usize);
                        }
                    }
                }
                true
            },
            _ => false,
        }
    }

    /// An event for several tasks at once: those that `due` names and that
    /// are suspended become ready, behind the tasks that are ready already
    /// and, among themselves, in the order in which they were spawned.
    pub fn wake_all(&mut self, due: &Vec<bool>)
        requires
            old(self).wf(),
            due@.len() == old(self)@.states.len(),
        ensures
            final(self).wf(),
            final(self)@ == (SchedulerView {
                states: states_after_wake(old(self)@.states, due@, old(self)@.states.len()),
                ready: old(self)@.ready + woken(old(self)@.states, due@, old(self)@.states.len()),
                ..old(self)@
            }),
            legal_steps(old(self)@.states, final(self)@.states),
    {
        let count = self.states.len();
        let mut task: usize = 0;
        assert(self@.ready =~= old(self)@.ready + woken(old(self)@.states, due@, 0));
        assert(self@.states =~= states_after_wake(old(self)@.states, due@, 0));
        while task < count
            invariant
                self.wf(),
                task <= count,
                count == old(self)@.states.len(),
                due@.len() == count,
                self@.capacity == old(self)@.capacity,
                self@.running == old(self)@.running,
                self@.states == states_after_wake(old(self)@.states, due@, task as nat),
                self@.ready == old(self)@.ready + woken(old(self)@.states, due@, task as nat),
            decreases count - task,
        {
            let ghost before = self@;
            if due[task] {
                let _ = self.wake(task);
            }
            proof {
                let first = old(self)@.states;
                assert(self@.states =~= states_after_wake(first, due@, (task + 1) as nat));
                assert(self@.ready =~= old(self)@.ready + woken(first, due@, (task + 1) as nat));
            }
            task = task + 1;
        }
    }
}

} // verus!
