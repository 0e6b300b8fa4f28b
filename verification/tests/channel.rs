use waveform_fanout::channel::{BroadcastChannel, ChannelError};

fn drain(channel: &mut BroadcastChannel, consumer: usize) -> Vec<usize> {
    let mut out = Vec::new();
    while let Some(v) = channel.try_next(consumer) {
        out.push(v);
    }
    out
}

#[test]
fn new_channel_has_no_consumers() {
    let channel = BroadcastChannel::new();
    assert_eq!(channel.consumer_count(), 0);
    assert_eq!(channel.published(), 0);
}

#[test]
fn subscribe_returns_indices_in_order() {
    let mut channel = BroadcastChannel::new();
    for i in 0..16 {
        assert_eq!(channel.subscribe(), Ok(i));
    }
    assert_eq!(channel.consumer_count(), 16);
}

#[test]
fn fresh_consumer_queue_is_empty() {
    let mut channel = BroadcastChannel::new();
    let c = channel.subscribe().unwrap();
    assert_eq!(channel.try_next(c), None);
}

#[test]
fn values_arrive_in_publication_order() {
    let mut channel = BroadcastChannel::new();
    let c = channel.subscribe().unwrap();
    channel.publish(15);
    channel.publish(14);
    channel.publish(13);
    assert_eq!(channel.try_next(c), Some(15));
    assert_eq!(channel.try_next(c), Some(14));
    assert_eq!(channel.try_next(c), Some(13));
    assert_eq!(channel.try_next(c), None);
}

#[test]
fn every_consumer_receives_every_value() {
    let mut channel = BroadcastChannel::new();
    let a = channel.subscribe().unwrap();
    let b = channel.subscribe().unwrap();
    let c = channel.subscribe().unwrap();
    channel.publish(3);
    channel.publish(2);
    assert_eq!(drain(&mut channel, b), vec![3, 2]);
    assert_eq!(drain(&mut channel, a), vec![3, 2]);
    assert_eq!(drain(&mut channel, c), vec![3, 2]);
}

#[test]
fn undrained_consumer_keeps_the_latest_four_of_five() {
    let mut channel = BroadcastChannel::new();
    let c = channel.subscribe().unwrap();
    for v in [15, 14, 13, 12, 11] {
        channel.publish(v);
    }
    assert_eq!(drain(&mut channel, c), vec![14, 13, 12, 11]);
}

#[test]
fn exactly_four_values_fit_without_loss() {
    let mut channel = BroadcastChannel::new();
    let c = channel.subscribe().unwrap();
    for v in [1, 2, 3, 4] {
        channel.publish(v);
    }
    assert_eq!(drain(&mut channel, c), vec![1, 2, 3, 4]);
}

#[test]
fn lagging_consumer_does_not_cost_others_anything() {
    let mut channel = BroadcastChannel::new();
    let fast = channel.subscribe().unwrap();
    let slow = channel.subscribe().unwrap();
    let mut seen = Vec::new();
    for v in 0..10 {
        channel.publish(v);
        seen.push(channel.try_next(fast).unwrap());
        assert_eq!(channel.try_next(fast), None);
    }
    assert_eq!(seen, (0..10).collect::<Vec<usize>>());
    assert_eq!(drain(&mut channel, slow), vec![6, 7, 8, 9]);
}

#[test]
fn partly_drained_consumer_loses_only_on_overflow() {
    let mut channel = BroadcastChannel::new();
    let a = channel.subscribe().unwrap();
    let b = channel.subscribe().unwrap();
    for v in [1, 2, 3] {
        channel.publish(v);
    }
    assert_eq!(channel.try_next(a), Some(1));
    assert_eq!(channel.try_next(a), Some(2));
    channel.publish(4);
    channel.publish(5);
    channel.publish(6);
    assert_eq!(drain(&mut channel, a), vec![3, 4, 5, 6]);
    assert_eq!(drain(&mut channel, b), vec![3, 4, 5, 6]);
}

#[test]
fn late_consumer_sees_only_later_values() {
    let mut channel = BroadcastChannel::new();
    let early = channel.subscribe().unwrap();
    channel.publish(7);
    channel.publish(6);
    let late = channel.subscribe().unwrap();
    channel.publish(5);
    assert_eq!(drain(&mut channel, late), vec![5]);
    assert_eq!(drain(&mut channel, early), vec![7, 6, 5]);
}

#[test]
fn publishing_to_nobody_is_not_counted() {
    let mut channel = BroadcastChannel::new();
    channel.publish(9);
    channel.publish(8);
    assert_eq!(channel.published(), 0);
    let c = channel.subscribe().unwrap();
    assert_eq!(channel.try_next(c), None);
    channel.publish(7);
    assert_eq!(channel.published(), 1);
    assert_eq!(channel.try_next(c), Some(7));
}

#[test]
fn seventeenth_subscribe_fails_and_leaves_the_sixteen_alone() {
    let mut channel = BroadcastChannel::new();
    for _ in 0..16 {
        channel.subscribe().unwrap();
    }
    channel.publish(15);
    channel.publish(14);
    assert_eq!(channel.subscribe(), Err(ChannelError::CapacityExceeded));
    assert_eq!(channel.subscribe(), Err(ChannelError::CapacityExceeded));
    assert_eq!(channel.consumer_count(), 16);
    channel.publish(13);
    for c in 0..16 {
        assert_eq!(drain(&mut channel, c), vec![15, 14, 13]);
    }
}

#[test]
fn two_fast_consumers_and_one_slow_over_a_second() {
    let mut channel = BroadcastChannel::new();
    let fast_a = channel.subscribe().unwrap();
    let fast_b = channel.subscribe().unwrap();
    let slow = channel.subscribe().unwrap();
    let mut sent = Vec::new();
    let mut got_a = Vec::new();
    let mut got_b = Vec::new();
    let mut got_slow = Vec::new();
    let mut value = 0usize;
    for ms in 1..=1000usize {
        value = if value == 0 { 15 } else { value - 1 };
        channel.publish(value);
        sent.push(value);
        got_a.extend(drain(&mut channel, fast_a));
        got_b.extend(drain(&mut channel, fast_b));
        if ms % 100 == 0 {
            let batch = drain(&mut channel, slow);
            assert_eq!(batch, sent[sent.len() - 4..].to_vec());
            got_slow.extend(batch);
        }
    }
    assert_eq!(sent.len(), 1000);
    assert_eq!(got_a, sent);
    assert_eq!(got_b, sent);
    assert_eq!(got_slow.len(), 40);
    assert_eq!(channel.published(), 1000);
}
