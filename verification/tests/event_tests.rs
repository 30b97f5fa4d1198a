//! EventBus tests

use userland::rwm_core::event::{EventBus, WmEvent};
use std::sync::atomic::{AtomicBool, AtomicI32, AtomicU32, Ordering};
use std::sync::Arc;

#[test]
fn event_bus_new() {
    let _bus = EventBus::new();
}

#[test]
fn event_bus_emit_no_subscribers() {
    let mut bus = EventBus::new();
    bus.emit(&WmEvent::Startup);
}

#[test]
fn event_bus_subscribe_and_emit() {
    let mut bus = EventBus::new();
    let received = Arc::new(AtomicBool::new(false));
    let r = received.clone();
    bus.subscribe("test", Box::new(move |e: &WmEvent| {
        if matches!(e, WmEvent::Startup) {
            r.store(true, Ordering::Relaxed);
        }
    }));
    bus.emit(&WmEvent::Startup);
    assert!(received.load(Ordering::Relaxed));
}

#[test]
fn event_bus_unsubscribe_prefix() {
    let mut bus = EventBus::new();
    let count = Arc::new(AtomicI32::new(0));
    let c1 = count.clone();
    let c2 = count.clone();
    bus.subscribe("plugin.a", Box::new(move |_: &WmEvent| { c1.fetch_add(1, Ordering::Relaxed); }));
    bus.subscribe("plugin.b", Box::new(move |_: &WmEvent| { c2.fetch_add(1, Ordering::Relaxed); }));
    bus.emit(&WmEvent::Startup);
    assert_eq!(count.load(Ordering::Relaxed), 2);
    bus.unsubscribe_prefix("plugin.");
    bus.emit(&WmEvent::Shutdown);
    assert_eq!(count.load(Ordering::Relaxed), 2);
}

#[test]
fn event_bus_multiple_subscribers() {
    let mut bus = EventBus::new();
    let n = Arc::new(AtomicU32::new(0));
    for _ in 0..3 {
        let n = n.clone();
        bus.subscribe("x", Box::new(move |_: &WmEvent| { n.fetch_add(1, Ordering::Relaxed); }));
    }
    bus.emit(&WmEvent::ConfigReloaded);
    assert_eq!(n.load(Ordering::Relaxed), 3);
}

#[test]
fn event_bus_calls_in_registration_order_and_keeps_others() {
    let mut bus = EventBus::new();
    let log = Arc::new(std::sync::Mutex::new(Vec::new()));
    for name in ["core.a", "plugin.x", "core.b"] {
        let log = log.clone();
        bus.subscribe(name, Box::new(move |_: &WmEvent| log.lock().unwrap().push(name)));
    }
    bus.emit(&WmEvent::Startup);
    assert_eq!(*log.lock().unwrap(), vec!["core.a", "plugin.x", "core.b"]);
    bus.unsubscribe_prefix("plugin.");
    bus.emit(&WmEvent::Shutdown);
    assert_eq!(*log.lock().unwrap(), vec!["core.a", "plugin.x", "core.b", "core.a", "core.b"]);
}
