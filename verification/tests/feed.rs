use chain_gateway::feed::{BlockFeed, PublishError, FEED_CAPACITY};

#[test]
fn feed_capacity_is_ten() {
    assert_eq!(FEED_CAPACITY, 10);
}

#[test]
fn eleventh_header_waits_for_the_slow_consumer() {
    let mut feed: BlockFeed<u64> = BlockFeed::new();
    let slow = feed.subscribe();
    let fast = feed.subscribe();
    for number in 1..=10u64 {
        assert_eq!(feed.publish(number), Ok(()));
    }
    for number in 1..=10u64 {
        assert_eq!(feed.peek(fast), Some(&number));
        assert!(feed.take(fast));
    }
    assert!(feed.is_full());
    assert_eq!(feed.len(), 10);
    for _ in 0..3 {
        assert_eq!(feed.publish(11), Err(PublishError::Full(11)));
        assert_eq!(feed.peek(fast), None);
        assert_eq!(feed.peek(slow), Some(&1));
        assert_eq!(feed.len(), 10);
    }
    assert!(feed.take(slow));
    assert_eq!(feed.len(), 9);
    assert!(!feed.is_full());
    assert_eq!(feed.publish(11), Ok(()));
    assert_eq!(feed.peek(fast), Some(&11));
    assert_eq!(feed.peek(slow), Some(&2));
    assert_eq!(feed.publish(12), Err(PublishError::Full(12)));
}

#[test]
fn the_channel_of_the_gateway_applies_the_same_backpressure() {
    let (sender, first) = async_broadcast::broadcast::<u64>(FEED_CAPACITY);
    let kept = first.deactivate();
    let mut feed: BlockFeed<u64> = BlockFeed::new();
    assert_eq!(sender.try_broadcast(0), Err(async_broadcast::TrySendError::Inactive(0)));
    assert_eq!(feed.publish(0), Err(PublishError::NoConsumer(0)));
    let mut slow = kept.clone().activate();
    let mut fast = kept.clone().activate();
    let model_slow = feed.subscribe();
    let model_fast = feed.subscribe();
    for number in 1..=10u64 {
        assert!(sender.try_broadcast(number).is_ok());
        assert!(feed.publish(number).is_ok());
    }
    for number in 1..=10u64 {
        assert_eq!(fast.try_recv(), Ok(number));
        assert_eq!(feed.peek(model_fast), Some(&number));
        assert!(feed.take(model_fast));
    }
    assert_eq!(sender.try_broadcast(11), Err(async_broadcast::TrySendError::Full(11)));
    assert_eq!(feed.publish(11), Err(PublishError::Full(11)));
    assert_eq!(fast.try_recv(), Err(async_broadcast::TryRecvError::Empty));
    assert_eq!(feed.peek(model_fast), None);
    assert_eq!(sender.len(), feed.len());
    assert_eq!(slow.try_recv(), Ok(1));
    assert!(feed.take(model_slow));
    assert_eq!(sender.len(), feed.len());
    assert_eq!(sender.try_broadcast(11), Ok(None));
    assert_eq!(feed.publish(11), Ok(()));
    assert_eq!(fast.try_recv(), Ok(11));
    assert_eq!(feed.peek(model_fast), Some(&11));
    assert_eq!(slow.try_recv(), Ok(2));
    assert_eq!(feed.peek(model_slow), Some(&2));
}

#[test]
fn a_handle_of_the_registry_receives_what_is_published_after_it_was_made_to_receive() {
    let (sender, first) = async_broadcast::broadcast::<u64>(FEED_CAPACITY);
    let kept = first.deactivate();
    let mut feed: BlockFeed<u64> = BlockFeed::new();
    let mut early = kept.clone().activate();
    let model_early = feed.subscribe();
    for number in 1..=3u64 {
        assert!(sender.try_broadcast(number).is_ok());
        assert!(feed.publish(number).is_ok());
    }
    let mut late = kept.clone().activate();
    let model_late = feed.subscribe();
    assert_eq!(late.try_recv(), Err(async_broadcast::TryRecvError::Empty));
    assert_eq!(feed.peek(model_late), None);
    assert!(sender.try_broadcast(4).is_ok());
    assert!(feed.publish(4).is_ok());
    assert_eq!(late.try_recv(), Ok(4));
    assert_eq!(feed.peek(model_late), Some(&4));
    assert!(feed.take(model_late));
    assert_eq!(early.try_recv(), Ok(1));
    assert_eq!(feed.peek(model_early), Some(&1));
    assert!(feed.take(model_early));
    assert_eq!(sender.len(), feed.len());
    for number in 5..=11u64 {
        assert_eq!(sender.try_broadcast(number).is_ok(), feed.publish(number).is_ok());
    }
    assert_eq!(sender.len(), feed.len());
    assert_eq!(sender.len(), 10);
}

#[test]
fn feed_without_consumer_accepts_nothing() {
    let mut feed: BlockFeed<u64> = BlockFeed::new();
    assert_eq!(feed.publish(1), Err(PublishError::NoConsumer(1)));
    assert_eq!(feed.len(), 0);
}

#[test]
fn consumer_is_handed_what_is_published_after_it_subscribed() {
    let mut feed: BlockFeed<&str> = BlockFeed::with_capacity(4);
    let first = feed.subscribe();
    assert_eq!(feed.publish("a"), Ok(()));
    let second = feed.subscribe();
    assert_eq!(feed.publish("b"), Ok(()));
    assert_eq!(feed.peek(first), Some(&"a"));
    assert_eq!(feed.peek(second), Some(&"b"));
    assert!(feed.take(second));
    assert_eq!(feed.peek(second), None);
    assert!(!feed.take(second));
    assert_eq!(feed.len(), 2);
    assert!(feed.take(first));
    assert_eq!(feed.len(), 1);
    assert_eq!(feed.peek(first), Some(&"b"));
    assert!(feed.take(first));
    assert_eq!(feed.len(), 0);
    assert_eq!(feed.peek(first), None);
}

#[test]
fn every_consumer_is_handed_every_header_in_order() {
    let mut feed: BlockFeed<u64> = BlockFeed::with_capacity(3);
    let a = feed.subscribe();
    let b = feed.subscribe();
    let mut seen_a = Vec::new();
    let mut seen_b = Vec::new();
    let mut next = 1u64;
    for round in 0..30 {
        if feed.publish(next).is_ok() {
            next += 1;
        }
        if let Some(header) = feed.peek(a) {
            seen_a.push(*header);
            feed.take(a);
        }
        if round % 3 == 0 {
            if let Some(header) = feed.peek(b) {
                seen_b.push(*header);
                feed.take(b);
            }
        }
        assert!(feed.len() <= 3);
    }
    while let Some(header) = feed.peek(b) {
        seen_b.push(*header);
        feed.take(b);
    }
    while let Some(header) = feed.peek(a) {
        seen_a.push(*header);
        feed.take(a);
    }
    let published: Vec<u64> = (1..next).collect();
    assert_eq!(seen_a, published);
    assert_eq!(seen_b, published);
    assert_eq!(feed.len(), 0);
}

#[test]
fn unknown_consumer_is_handed_nothing() {
    let mut feed: BlockFeed<u64> = BlockFeed::new();
    let only = feed.subscribe();
    assert_eq!(only, 0);
    assert_eq!(feed.publish(5), Ok(()));
    assert_eq!(feed.peek(3), None);
    assert!(!feed.take(3));
    assert_eq!(feed.peek(only), Some(&5));
}

#[test]
fn feed_of_capacity_zero_is_always_full() {
    let mut feed: BlockFeed<u64> = BlockFeed::with_capacity(0);
    feed.subscribe();
    assert!(feed.is_full());
    assert_eq!(feed.publish(1), Err(PublishError::Full(1)));
}

#[test]
fn leaving_consumer_frees_what_only_it_had_yet_to_take() {
    let mut feed: BlockFeed<u64> = BlockFeed::new();
    let slow = feed.subscribe();
    let fast = feed.subscribe();
    for number in 1..=10u64 {
        assert_eq!(feed.publish(number), Ok(()));
    }
    for _ in 0..4 {
        assert!(feed.take(fast));
    }
    assert_eq!(feed.publish(11), Err(PublishError::Full(11)));
    assert!(feed.unsubscribe(slow));
    assert_eq!(feed.len(), 6);
    assert_eq!(feed.peek(fast), Some(&5));
    assert_eq!(feed.peek(slow), None);
    assert!(!feed.take(slow));
    assert!(!feed.unsubscribe(slow));
    assert_eq!(feed.publish(11), Ok(()));
    assert_eq!(feed.len(), 7);
}

#[test]
fn feed_that_all_consumers_have_left_holds_nothing() {
    let mut feed: BlockFeed<u64> = BlockFeed::with_capacity(2);
    let only = feed.subscribe();
    assert_eq!(feed.publish(1), Ok(()));
    assert_eq!(feed.publish(2), Ok(()));
    assert!(feed.unsubscribe(only));
    assert_eq!(feed.len(), 0);
    assert_eq!(feed.publish(3), Err(PublishError::NoConsumer(3)));
    let next = feed.subscribe();
    assert_eq!(next, 1);
    assert_eq!(feed.publish(3), Ok(()));
    assert_eq!(feed.peek(next), Some(&3));
    assert!(!feed.unsubscribe(7));
}

#[test]
fn the_channel_of_the_gateway_frees_the_slots_of_a_dropped_receiver() {
    let (sender, first) = async_broadcast::broadcast::<u64>(FEED_CAPACITY);
    let kept = first.deactivate();
    let slow = kept.clone().activate();
    let mut fast = kept.clone().activate();
    let mut feed: BlockFeed<u64> = BlockFeed::new();
    let model_slow = feed.subscribe();
    let model_fast = feed.subscribe();
    for number in 1..=10u64 {
        assert!(sender.try_broadcast(number).is_ok());
        assert!(feed.publish(number).is_ok());
    }
    for number in 1..=4u64 {
        assert_eq!(fast.try_recv(), Ok(number));
        assert!(feed.take(model_fast));
    }
    assert!(sender.try_broadcast(11).is_err());
    assert!(feed.publish(11).is_err());
    drop(slow);
    assert!(feed.unsubscribe(model_slow));
    assert_eq!(sender.len(), feed.len());
    assert_eq!(sender.try_broadcast(11), Ok(None));
    assert_eq!(feed.publish(11), Ok(()));
    assert_eq!(fast.try_recv(), Ok(5));
    assert_eq!(feed.peek(model_fast), Some(&5));
}
