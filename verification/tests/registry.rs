use reflex_arcade::signals::Filter;
use reflex_arcade::signals::SignalEvent;
use reflex_arcade::signals::SignalsRegistry;
use reflex_arcade::signals::PRESSED;
use reflex_arcade::signals::pressed;

#[test]
fn dispatch_resolves_all_matching_awaiters() {
    let mut reg = SignalsRegistry::new();
    reg.register_promise(1, 10, Filter::EqualTo(PRESSED));
    reg.register_promise(2, 10, Filter::Always);
    reg.register_promise(3, 11, Filter::Always);
    reg.register_promise(4, 10, Filter::NotEqualTo(PRESSED));
    let fired = reg.drain_promises_for(&SignalEvent { sources: vec![10], value: PRESSED });
    assert_eq!(fired, vec![1, 2]);
    assert_eq!(reg.len(), 2);
}

#[test]
fn resolved_awaiters_never_fire_again() {
    let mut reg = SignalsRegistry::new();
    reg.register_promise(1, 10, Filter::Always);
    let fired = reg.drain_promises_for(&SignalEvent { sources: vec![10], value: PRESSED });
    assert_eq!(fired, vec![1]);
    let fired_again = reg.drain_promises_for(&SignalEvent { sources: vec![10], value: PRESSED });
    assert_eq!(fired_again, Vec::<u64>::new());
    assert_eq!(reg.len(), 0);
}

#[test]
fn dispatch_with_no_match_is_a_silent_noop() {
    let mut reg = SignalsRegistry::new();
    reg.register_promise(1, 10, Filter::Always);
    let fired = reg.drain_promises_for(&SignalEvent { sources: vec![99], value: PRESSED });
    assert_eq!(fired, Vec::<u64>::new());
    assert_eq!(reg.len(), 1);
}

#[test]
fn cancel_is_idempotent() {
    let mut reg = SignalsRegistry::new();
    reg.register_promise(1, 10, Filter::Always);
    reg.discard_promise(1);
    assert_eq!(reg.len(), 0);
    reg.discard_promise(1);
    assert_eq!(reg.len(), 0);
    reg.discard_promise(42);
    assert_eq!(reg.len(), 0);
}

#[test]
fn cancelled_awaiter_never_fires() {
    let mut reg = SignalsRegistry::new();
    reg.register_promise(1, 10, Filter::Always);
    reg.register_promise(2, 10, Filter::Always);
    reg.discard_promise(1);
    let fired = reg.drain_promises_for(&SignalEvent { sources: vec![10], value: PRESSED });
    assert_eq!(fired, vec![2]);
}

#[test]
fn pressed_accepts_only_press_events() {
    let mut reg = SignalsRegistry::new();
    pressed(&mut reg, 7, 50);
    let released = reg.drain_promises_for(&SignalEvent { sources: vec![50], value: 0 });
    assert_eq!(released, Vec::<u64>::new());
    let fired = reg.drain_promises_for(&SignalEvent { sources: vec![50], value: PRESSED });
    assert_eq!(fired, vec![7]);
}

#[test]
fn event_with_many_sources_reaches_each() {
    let mut reg = SignalsRegistry::new();
    reg.register_promise(1, 10, Filter::Always);
    reg.register_promise(2, 11, Filter::Always);
    reg.register_promise(3, 12, Filter::Always);
    let fired = reg.drain_promises_for(&SignalEvent { sources: vec![12, 10], value: PRESSED });
    assert_eq!(fired, vec![1, 3]);
    assert_eq!(reg.len(), 1);
}
