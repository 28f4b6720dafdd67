use mill_io::event::Event;
use mill_io::reactor::{
    HandlerRegistry, InterestSet, DEFAULT_EVENTS_CAPACITY, DEFAULT_POLL_TIMEOUT_MS,
};

const READABLE: InterestSet = InterestSet { readable: true, writable: false };
const WRITABLE: InterestSet = InterestSet { readable: false, writable: true };

#[test]
fn test_register_unregister() {
    let mut registry = HandlerRegistry::new();
    registry.register(1, READABLE);
    assert!(registry.contains(1), "Token not found in registry");
    assert!(registry.deregister(1), "Failed to unregister source");
    assert!(!registry.contains(1), "Token should have been removed from registry");
    assert!(!registry.deregister(1));
}

#[test]
fn test_multiple_handlers() {
    let mut registry = HandlerRegistry::new();
    registry.register(1, READABLE);
    registry.register(2, WRITABLE);
    assert_eq!(registry.len(), 2);
    assert!(registry.contains(1), "Failed to find src1");
    assert!(registry.contains(2), "Failed to find src2");
    assert_eq!(registry.interest(1), Some(READABLE));
    assert_eq!(registry.interest(2), Some(WRITABLE));
    assert_eq!(registry.interest(3), None);
}

#[test]
fn dispatch_follows_interest() {
    let mut registry = HandlerRegistry::new();
    registry.register(1, READABLE);
    registry.register(2, WRITABLE);
    registry.register(3, InterestSet { readable: true, writable: true });
    assert!(registry.should_dispatch(1, true, false));
    assert!(!registry.should_dispatch(1, false, true));
    assert!(registry.should_dispatch(2, false, true));
    assert!(!registry.should_dispatch(2, true, false));
    assert!(registry.should_dispatch(3, true, true));
    assert!(!registry.should_dispatch(3, false, false));
    assert!(!registry.should_dispatch(4, true, true));
    registry.deregister(1);
    assert!(!registry.should_dispatch(1, true, false));
}

#[test]
fn reregistering_replaces_interest() {
    let mut registry = HandlerRegistry::new();
    registry.register(7, READABLE);
    registry.register(7, WRITABLE);
    assert_eq!(registry.len(), 1);
    assert!(!registry.should_dispatch(7, true, false));
    assert!(registry.should_dispatch(7, false, true));
}

#[test]
fn event_keeps_token_and_readiness() {
    let e = Event::new(mio::Token(5), true, false);
    assert_eq!(e.token(), mio::Token(5));
    assert!(e.is_readable());
    assert!(!e.is_writable());
}

#[test]
fn reactor_defaults() {
    assert_eq!(DEFAULT_EVENTS_CAPACITY, 1024);
    assert_eq!(DEFAULT_POLL_TIMEOUT_MS, 150);
}
