use waveform_fanout::engine::{WaveformEngine, ENGINE_QUEUE_DEPTH};

#[test]
fn engine_starts_unloaded_with_pins_low() {
    let engine = WaveformEngine::new();
    assert!(!engine.is_loaded());
    assert_eq!(engine.queued(), 0);
    assert_eq!(engine.pins(), 0);
}

#[test]
fn load_installs_the_program() {
    let mut engine = WaveformEngine::new();
    engine.load();
    assert!(engine.is_loaded());
    assert_eq!(engine.queued(), 0);
    assert_eq!(engine.pins(), 0);
}

#[test]
fn pushed_values_come_out_in_order() {
    let mut engine = WaveformEngine::new();
    engine.load();
    assert!(engine.try_push(15));
    assert!(engine.try_push(14));
    assert!(engine.try_push(13));
    assert_eq!(engine.queued(), 3);
    assert_eq!(engine.tick(), Some(15));
    assert_eq!(engine.pins(), 15);
    assert_eq!(engine.tick(), Some(14));
    assert_eq!(engine.pins(), 14);
    assert_eq!(engine.tick(), Some(13));
    assert_eq!(engine.pins(), 13);
    assert_eq!(engine.queued(), 0);
}

#[test]
fn empty_engine_stalls_and_holds_the_pins() {
    let mut engine = WaveformEngine::new();
    engine.load();
    assert!(engine.try_push(9));
    assert_eq!(engine.tick(), Some(9));
    assert_eq!(engine.tick(), None);
    assert_eq!(engine.tick(), None);
    assert_eq!(engine.pins(), 9);
}

#[test]
fn unloaded_engine_does_not_tick() {
    let mut engine = WaveformEngine::new();
    assert_eq!(engine.tick(), None);
    assert_eq!(engine.pins(), 0);
}

#[test]
fn full_queue_refuses_a_push_and_keeps_its_words() {
    let mut engine = WaveformEngine::new();
    engine.load();
    for v in [1, 2, 3, 4] {
        assert!(engine.try_push(v));
    }
    assert_eq!(engine.queued(), ENGINE_QUEUE_DEPTH);
    assert!(!engine.try_push(5));
    assert_eq!(engine.queued(), 4);
    assert_eq!(engine.tick(), Some(1));
    assert!(engine.try_push(5));
    assert_eq!(engine.tick(), Some(2));
    assert_eq!(engine.tick(), Some(3));
    assert_eq!(engine.tick(), Some(4));
    assert_eq!(engine.tick(), Some(5));
    assert_eq!(engine.tick(), None);
}
