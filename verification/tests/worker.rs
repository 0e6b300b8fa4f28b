use waveform_fanout::worker::{Worker, WorkerAction, HEARTBEAT_MS, KEEP_ALIVE_MS};

#[test]
fn new_worker_has_done_nothing() {
    let worker = Worker::new(7);
    assert_eq!(worker, Worker { id: 7, subscribed: false, beat_due: true, beats: 0 });
}

#[test]
fn keep_alive_waits_ten_milliseconds_every_round() {
    let worker = Worker::new(0);
    assert_eq!(KEEP_ALIVE_MS, 10);
    for _ in 0..3 {
        assert_eq!(worker.keep_alive_step(), WorkerAction::Wait(10));
    }
    assert_eq!(worker, Worker::new(0));
}

#[test]
fn consumer_subscribes_once_then_awaits_messages() {
    let mut worker = Worker::new(3);
    assert_eq!(worker.consumer_step(), WorkerAction::Subscribe);
    assert!(worker.subscribed);
    for _ in 0..5 {
        assert_eq!(worker.consumer_step(), WorkerAction::AwaitMessage);
    }
    assert_eq!(worker.beats, 0);
    assert_eq!(worker.id, 3);
}

#[test]
fn heartbeat_reports_identity_then_waits_four_seconds() {
    let mut worker = Worker::new(11);
    assert_eq!(HEARTBEAT_MS, 4000);
    assert_eq!(worker.heartbeat_step(), WorkerAction::Heartbeat(11));
    assert_eq!(worker.beats, 1);
    assert_eq!(worker.heartbeat_step(), WorkerAction::Wait(4000));
    assert_eq!(worker.beats, 1);
    assert_eq!(worker.heartbeat_step(), WorkerAction::Heartbeat(11));
    assert_eq!(worker.beats, 2);
    assert_eq!(worker.heartbeat_step(), WorkerAction::Wait(4000));
}

#[test]
fn heartbeat_count_wraps_at_256() {
    let mut worker = Worker { id: 1, subscribed: true, beat_due: true, beats: 255 };
    assert_eq!(worker.heartbeat_step(), WorkerAction::Heartbeat(1));
    assert_eq!(worker.beats, 0);
}

#[test]
fn no_obligation_steps_twice_without_suspending() {
    let mut worker = Worker::new(2);
    let suspends = |a: WorkerAction| matches!(a, WorkerAction::Wait(_) | WorkerAction::AwaitMessage);
    let mut last_consumer = true;
    let mut last_heartbeat = true;
    for _ in 0..20 {
        assert!(suspends(worker.keep_alive_step()));
        let c = suspends(worker.consumer_step());
        assert!(c || last_consumer);
        last_consumer = c;
        let h = suspends(worker.heartbeat_step());
        assert!(h || last_heartbeat);
        last_heartbeat = h;
    }
}
