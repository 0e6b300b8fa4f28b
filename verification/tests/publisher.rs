use waveform_fanout::publisher::{PublisherAction, PublisherPhase, PublisherTask, PUBLISH_INTERVAL_MS};

#[test]
fn new_task_is_idle_at_the_start_value() {
    let task = PublisherTask::new();
    assert_eq!(task.phase, PublisherPhase::Idle);
    assert_eq!(task.value, 0);
}

#[test]
fn first_cycle_pushes_then_publishes_fifteen_then_waits() {
    let mut task = PublisherTask::new();
    assert_eq!(task.step(), PublisherAction::Proceed);
    assert_eq!(task.phase, PublisherPhase::ComputeNext);
    assert_eq!(task.step(), PublisherAction::Proceed);
    assert_eq!(task.phase, PublisherPhase::Push);
    assert_eq!(task.step(), PublisherAction::Push(15));
    assert_eq!(task.phase, PublisherPhase::Broadcast);
    assert_eq!(task.step(), PublisherAction::Publish(15));
    assert_eq!(task.phase, PublisherPhase::WaitInterval);
    assert_eq!(task.step(), PublisherAction::Wait(1));
    assert_eq!(task.phase, PublisherPhase::ComputeNext);
}

#[test]
fn interval_is_one_millisecond() {
    assert_eq!(PUBLISH_INTERVAL_MS, 1);
}

#[test]
fn later_cycles_skip_idle() {
    let mut task = PublisherTask::new();
    for _ in 0..5 {
        task.step();
    }
    assert_eq!(task.step(), PublisherAction::Proceed);
    assert_eq!(task.step(), PublisherAction::Push(14));
    assert_eq!(task.step(), PublisherAction::Publish(14));
    assert_eq!(task.step(), PublisherAction::Wait(1));
}

#[test]
fn pushes_equal_publishes_value_for_value() {
    let mut task = PublisherTask::new();
    let mut pushed = Vec::new();
    let mut published = Vec::new();
    for _ in 0..401 {
        match task.step() {
            PublisherAction::Push(v) => pushed.push(v),
            PublisherAction::Publish(v) => published.push(v),
            PublisherAction::Proceed | PublisherAction::Wait(_) => {}
        }
    }
    assert_eq!(published.len(), 100);
    assert_eq!(pushed, published);
}

#[test]
fn push_is_at_most_one_ahead_of_publish() {
    let mut task = PublisherTask::new();
    let mut pushed = Vec::new();
    let mut published = Vec::new();
    for _ in 0..100 {
        match task.step() {
            PublisherAction::Push(v) => pushed.push(v),
            PublisherAction::Publish(v) => published.push(v),
            PublisherAction::Proceed | PublisherAction::Wait(_) => {}
        }
        assert!(published.len() <= pushed.len());
        assert!(pushed.len() <= published.len() + 1);
        assert_eq!(pushed[..published.len()], published[..]);
    }
}

#[test]
fn published_values_follow_the_cycle() {
    let mut task = PublisherTask::new();
    let mut published = Vec::new();
    while published.len() < 48 {
        if let PublisherAction::Publish(v) = task.step() {
            published.push(v);
        }
    }
    let cycle: Vec<usize> = (0..16).rev().collect();
    assert_eq!(published[0..16], cycle[..]);
    assert_eq!(published[16..32], cycle[..]);
    assert_eq!(published[32..48], cycle[..]);
}

#[test]
fn cycle_from_any_value_returns_after_sixteen_publishes() {
    for start in 0..16usize {
        let mut task = PublisherTask { phase: PublisherPhase::ComputeNext, value: start };
        let mut published = Vec::new();
        while published.len() < 16 {
            if let PublisherAction::Publish(v) = task.step() {
                published.push(v);
            }
        }
        assert_eq!(published[0], if start == 0 { 15 } else { start - 1 });
        assert_eq!(published[15], start);
        assert_eq!(task.value, start);
    }
}
