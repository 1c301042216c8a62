use spectro::channel::{BoundedChannel, Policy, SendOutcome};

#[test]
fn drop_warn_producer_never_blocks_or_overfills() {
    let mut ch: BoundedChannel<u32> = BoundedChannel::new(2, Policy::DropWarn);
    let mut outcomes = Vec::new();
    for v in 0..5u32 {
        outcomes.push(ch.produce(v));
    }
    assert_eq!(
        outcomes,
        vec![
            SendOutcome::Accepted,
            SendOutcome::Accepted,
            SendOutcome::Dropped,
            SendOutcome::Dropped,
            SendOutcome::Dropped,
        ]
    );
    assert_eq!(ch.len(), 2);
    assert_eq!(ch.warnings(), 3);
    // Received never exceeds sent: 5 sent, at most 2 can come out.
    let mut received = 0;
    while ch.recv().is_some() {
        received += 1;
    }
    assert_eq!(received, 2);
}

#[test]
fn items_come_out_in_the_order_they_went_in() {
    let mut ch: BoundedChannel<u32> = BoundedChannel::new(4, Policy::DropWarn);
    for v in [10, 20, 30] {
        assert_eq!(ch.produce(v), SendOutcome::Accepted);
    }
    assert_eq!(ch.recv(), Some(10));
    assert_eq!(ch.recv(), Some(20));
    assert_eq!(ch.recv(), Some(30));
    assert_eq!(ch.recv(), None);
}

#[test]
fn overload_drops_the_newest_items() {
    let mut ch: BoundedChannel<u32> = BoundedChannel::new(2, Policy::DropWarn);
    for v in [1, 2, 3, 4] {
        ch.produce(v);
    }
    assert_eq!(ch.recv(), Some(1));
    assert_eq!(ch.recv(), Some(2));
    assert_eq!(ch.recv(), None);
}

#[test]
fn disconnection_is_fatal_not_silent() {
    let mut ch: BoundedChannel<u32> = BoundedChannel::new(2, Policy::DropWarn);
    ch.produce(1);
    ch.disconnect();
    let o = ch.produce(2);
    assert_eq!(o, SendOutcome::Disconnected);
    assert!(o.is_fatal());
    assert!(!SendOutcome::Accepted.is_fatal());
    assert!(!SendOutcome::Dropped.is_fatal());
}

#[test]
fn blocking_producer_accepts_when_space_exists() {
    let mut ch: BoundedChannel<u32> = BoundedChannel::new(1, Policy::Block);
    assert_eq!(ch.produce(5), SendOutcome::Accepted);
    assert_eq!(ch.recv(), Some(5));
    assert_eq!(ch.produce(6), SendOutcome::Accepted);
}
