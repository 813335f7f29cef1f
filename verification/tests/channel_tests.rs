use tungsten_core::channel::Channel;

#[test]
fn unbounded_channel_is_fifo() {
    let mut ch: Channel<i64> = Channel::unbounded();
    assert!(ch.try_send(100).is_ok());
    assert!(ch.try_send(200).is_ok());
    assert!(ch.try_send(300).is_ok());
    assert_eq!(ch.len(), 3);
    assert_eq!(ch.try_recv(), Some(100));
    assert_eq!(ch.try_recv(), Some(200));
    assert_eq!(ch.try_recv(), Some(300));
    assert_eq!(ch.try_recv(), None);
}

#[test]
fn bounded_channel_hands_back_when_full() {
    let mut ch: Channel<&str> = Channel::bounded(2);
    assert!(ch.has_room());
    assert_eq!(ch.try_send("a"), Ok(()));
    assert_eq!(ch.try_send("b"), Ok(()));
    assert!(!ch.has_room());
    assert_eq!(ch.try_send("c"), Err("c"));
    assert_eq!(ch.len(), 2);
    assert_eq!(ch.try_recv(), Some("a"));
    assert_eq!(ch.try_send("c"), Ok(()));
    assert_eq!(ch.try_recv(), Some("b"));
    assert_eq!(ch.try_recv(), Some("c"));
}

#[test]
fn zero_capacity_channel_never_accepts() {
    let mut ch: Channel<u8> = Channel::bounded(0);
    assert_eq!(ch.try_send(1), Err(1));
    assert_eq!(ch.try_recv(), None);
}
