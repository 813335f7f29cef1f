use tungsten_core::iocp::PinnedIoContext;

#[test]
fn new_context_is_clear() {
    let ctx = PinnedIoContext::new(42, true);
    assert_eq!(ctx.socket_id, 42);
    assert!(ctx.is_write);
    assert_eq!(ctx.overlapped.internal, 0);
    assert_eq!(ctx.bytes_transferred, 0);
    assert!(!ctx.completed);
}

#[test]
fn reset_clears_completion() {
    let mut ctx = PinnedIoContext::new(7, false);
    ctx.overlapped.internal = 5;
    ctx.overlapped.offset_high = 9;
    ctx.overlapped.h_event = 11;
    ctx.bytes_transferred = 512;
    ctx.error = 64;
    ctx.completed = true;
    ctx.reset();
    assert_eq!(ctx.socket_id, 7);
    assert!(!ctx.is_write);
    assert_eq!(ctx.overlapped.internal, 0);
    assert_eq!(ctx.overlapped.offset_high, 0);
    assert_eq!(ctx.overlapped.h_event, 0);
    assert_eq!(ctx.bytes_transferred, 0);
    assert_eq!(ctx.error, 0);
    assert!(!ctx.completed);
}
