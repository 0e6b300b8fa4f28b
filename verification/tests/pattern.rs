use waveform_fanout::pattern::{nth, successor, PATTERN_PERIOD, PATTERN_START};

#[test]
fn successor_decrements() {
    assert_eq!(successor(15), 14);
    assert_eq!(successor(8), 7);
    assert_eq!(successor(1), 0);
}

#[test]
fn successor_wraps_zero_to_fifteen() {
    assert_eq!(successor(0), 15);
}

#[test]
fn cycle_from_start_runs_fifteen_down_to_zero() {
    let mut v = PATTERN_START;
    let mut seen = Vec::new();
    for _ in 0..16 {
        v = successor(v);
        seen.push(v);
    }
    assert_eq!(seen, vec![15, 14, 13, 12, 11, 10, 9, 8, 7, 6, 5, 4, 3, 2, 1, 0]);
    assert_eq!(successor(v), 15);
}

#[test]
fn sixteen_steps_return_to_any_start() {
    for start in 0..PATTERN_PERIOD {
        let mut v = start;
        for step in 1..=16 {
            v = successor(v);
            if step < 16 {
                assert_ne!(v, start);
            }
        }
        assert_eq!(v, start);
    }
}

#[test]
fn nth_agrees_with_repeated_steps() {
    for start in 0..PATTERN_PERIOD {
        let mut v = start;
        for n in 0..40u64 {
            assert_eq!(nth(start, n), v);
            v = successor(v);
        }
    }
}

#[test]
fn nth_exact_values() {
    assert_eq!(nth(0, 0), 0);
    assert_eq!(nth(0, 1), 15);
    assert_eq!(nth(0, 16), 0);
    assert_eq!(nth(5, 7), 14);
    assert_eq!(nth(3, 1000), 11);
    assert_eq!(nth(9, u64::MAX), 10);
}
