use orbital::registry::{Registry, ServiceWrapper};

fn s(x: &str) -> String {
    x.to_string()
}

fn sorted(mut v: Vec<u64>) -> Vec<u64> {
    v.sort();
    v
}

#[test]
fn new_registry_is_empty() {
    let r = Registry::new();
    assert!(!r.contains(0));
    assert!(r.sids().is_empty());
    assert_eq!(r.name_of(7), None);
}

#[test]
fn wrapper_starts_without_topics() {
    let w = ServiceWrapper::new("camera", 9);
    assert_eq!(w.sid, 9);
    assert_eq!(w.name, "camera");
    assert!(w.subscriptions.is_empty());
}

#[test]
fn put_registers_and_replaces() {
    let mut r = Registry::new();
    r.put(1, "camera");
    r.put(2, "display");
    assert!(r.contains(1) && r.contains(2));
    assert_eq!(r.name_of(1), Some(s("camera")));
    r.subscribe(1, s("/frames"));
    assert_eq!(r.subscribers(&s("/frames")), vec![1]);
    r.put(1, "tensor");
    assert_eq!(r.name_of(1), Some(s("tensor")));
    assert!(r.subscribers(&s("/frames")).is_empty());
    assert_eq!(sorted(r.sids()), vec![1, 2]);
}

#[test]
fn revise_keeps_topics() {
    let mut r = Registry::new();
    r.put(5, "old");
    r.subscribe(5, s("/display"));
    r.revise(5, "new");
    assert_eq!(r.name_of(5), Some(s("new")));
    assert_eq!(r.subscribers(&s("/display")), vec![5]);
    r.revise(6, "fresh");
    assert_eq!(r.name_of(6), Some(s("fresh")));
    assert_eq!(r.subscribers(&s("/display")), vec![5]);
}

#[test]
fn subscribe_is_idempotent_and_unsubscribe_undoes_it() {
    let mut r = Registry::new();
    r.put(3, "a");
    r.subscribe(3, s("/t"));
    r.subscribe(3, s("/t"));
    assert_eq!(r.subscribers(&s("/t")), vec![3]);
    r.unsubscribe(3, &s("/t"));
    assert!(r.subscribers(&s("/t")).is_empty());
    r.unsubscribe(3, &s("/t"));
    assert!(r.subscribers(&s("/t")).is_empty());
    assert!(r.contains(3));
}

#[test]
fn subscribers_are_exactly_the_listeners() {
    let mut r = Registry::new();
    for sid in 1..=4u64 {
        r.put(sid, "svc");
    }
    r.subscribe(1, s("/a"));
    r.subscribe(3, s("/a"));
    r.subscribe(2, s("/b"));
    r.subscribe(3, s("/b"));
    assert_eq!(sorted(r.subscribers(&s("/a"))), vec![1, 3]);
    assert_eq!(sorted(r.subscribers(&s("/b"))), vec![2, 3]);
    assert!(r.subscribers(&s("/c")).is_empty());
    let first = r.first_subscriber(&s("/b")).unwrap();
    assert!(first == 2 || first == 3);
    assert_eq!(r.first_subscriber(&s("/c")), None);
}

#[test]
fn has_name_finds_registered_names() {
    let mut r = Registry::new();
    r.put(1, "cubes.wasm");
    assert!(r.has_name(&s("cubes.wasm")));
    assert!(!r.has_name(&s("friendfinder.wat")));
}

#[test]
fn fresh_id_keeps_a_free_hint() {
    let mut r = Registry::new();
    r.put(7, "a");
    assert_eq!(r.fresh_id(8), 8);
    assert_eq!(Registry::new().fresh_id(0), 0);
}

#[test]
fn fresh_id_steps_past_taken_identifiers() {
    let mut r = Registry::new();
    for sid in 10..15u64 {
        r.put(sid, "a");
    }
    let id = r.fresh_id(10);
    assert!(!r.contains(id));
    let mut top = Registry::new();
    top.put(u64::MAX, "a");
    top.put(0, "b");
    let id = top.fresh_id(u64::MAX);
    assert!(!top.contains(id));
}
