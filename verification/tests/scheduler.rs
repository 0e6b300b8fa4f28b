use waveform_fanout::scheduler::{Scheduler, SpawnError, TaskState};

#[test]
fn new_scheduler_is_empty() {
    let scheduler = Scheduler::new(16);
    assert_eq!(scheduler.capacity(), 16);
    assert_eq!(scheduler.task_count(), 0);
    assert_eq!(scheduler.ready_count(), 0);
    assert_eq!(scheduler.running(), None);
}

#[test]
fn spawned_tasks_are_ready_and_numbered_in_order() {
    let mut scheduler = Scheduler::new(3);
    assert_eq!(scheduler.spawn(), Ok(0));
    assert_eq!(scheduler.spawn(), Ok(1));
    assert_eq!(scheduler.spawn(), Ok(2));
    assert_eq!(scheduler.task_count(), 3);
    assert_eq!(scheduler.ready_count(), 3);
    for task in 0..3 {
        assert_eq!(scheduler.state(task), TaskState::Ready);
    }
}

#[test]
fn seventeenth_spawn_on_sixteen_slots_is_rejected() {
    let mut scheduler = Scheduler::new(16);
    for i in 0..16 {
        assert_eq!(scheduler.spawn(), Ok(i));
    }
    assert_eq!(scheduler.spawn(), Err(SpawnError::PoolExhausted));
    assert_eq!(scheduler.task_count(), 16);
    assert_eq!(scheduler.ready_count(), 16);
}

#[test]
fn scheduler_without_slots_rejects_the_first_spawn() {
    let mut scheduler = Scheduler::new(0);
    assert_eq!(scheduler.spawn(), Err(SpawnError::PoolExhausted));
}

#[test]
fn dispatch_runs_tasks_in_arrival_order() {
    let mut scheduler = Scheduler::new(4);
    for _ in 0..3 {
        scheduler.spawn().unwrap();
    }
    assert_eq!(scheduler.dispatch(), Some(0));
    assert_eq!(scheduler.running(), Some(0));
    assert_eq!(scheduler.state(0), TaskState::Running);
    scheduler.suspend();
    assert_eq!(scheduler.state(0), TaskState::Suspended);
    assert_eq!(scheduler.running(), None);
    assert_eq!(scheduler.dispatch(), Some(1));
    scheduler.suspend();
    assert_eq!(scheduler.dispatch(), Some(2));
    scheduler.suspend();
    assert_eq!(scheduler.dispatch(), None);
}

#[test]
fn woken_task_queues_behind_ready_tasks() {
    let mut scheduler = Scheduler::new(4);
    for _ in 0..3 {
        scheduler.spawn().unwrap();
    }
    assert_eq!(scheduler.dispatch(), Some(0));
    scheduler.suspend();
    assert!(scheduler.wake(0));
    assert_eq!(scheduler.state(0), TaskState::Ready);
    assert_eq!(scheduler.dispatch(), Some(1));
    scheduler.suspend();
    assert_eq!(scheduler.dispatch(), Some(2));
    scheduler.suspend();
    assert_eq!(scheduler.dispatch(), Some(0));
}

#[test]
fn wake_leaves_tasks_alone_that_are_not_suspended() {
    let mut scheduler = Scheduler::new(4);
    for _ in 0..3 {
        scheduler.spawn().unwrap();
    }
    assert!(!scheduler.wake(1));
    assert_eq!(scheduler.ready_count(), 3);
    assert_eq!(scheduler.dispatch(), Some(0));
    assert!(!scheduler.wake(0));
    assert_eq!(scheduler.state(0), TaskState::Running);
    scheduler.complete();
    assert_eq!(scheduler.state(0), TaskState::Completed);
    assert!(!scheduler.wake(0));
    assert_eq!(scheduler.state(0), TaskState::Completed);
    assert_eq!(scheduler.ready_count(), 2);
}

#[test]
fn tasks_woken_together_run_earliest_spawned_first() {
    let mut scheduler = Scheduler::new(4);
    for _ in 0..4 {
        scheduler.spawn().unwrap();
    }
    for expected in [0, 1, 2] {
        assert_eq!(scheduler.dispatch(), Some(expected));
        scheduler.suspend();
    }
    // Task 3 is still ready; 2 and 0 wake together with 1 left asleep.
    scheduler.wake_all(&vec![true, false, true, true]);
    assert_eq!(scheduler.state(1), TaskState::Suspended);
    assert_eq!(scheduler.ready_count(), 3);
    assert_eq!(scheduler.dispatch(), Some(3));
    scheduler.suspend();
    assert_eq!(scheduler.dispatch(), Some(0));
    scheduler.suspend();
    assert_eq!(scheduler.dispatch(), Some(2));
    scheduler.suspend();
    assert_eq!(scheduler.dispatch(), None);
}

#[test]
fn completed_task_never_runs_again() {
    let mut scheduler = Scheduler::new(2);
    scheduler.spawn().unwrap();
    scheduler.spawn().unwrap();
    assert_eq!(scheduler.dispatch(), Some(0));
    scheduler.complete();
    assert_eq!(scheduler.dispatch(), Some(1));
    scheduler.suspend();
    scheduler.wake_all(&vec![true, true]);
    assert_eq!(scheduler.dispatch(), Some(1));
    scheduler.suspend();
    assert_eq!(scheduler.dispatch(), None);
    assert_eq!(scheduler.state(0), TaskState::Completed);
}
