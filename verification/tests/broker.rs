use orbital::broker::{Action, Broker};
use orbital::kernel::{Kernel, Message};

fn s(x: &str) -> String {
    x.to_string()
}

#[test]
fn channel_registers_and_connects() {
    let mut b = Broker::new();
    let act = b.step(Message::Channel(7, s("Camera")), 0);
    assert!(matches!(act, Action::Connect(7)));
    assert_eq!(b.registry().name_of(7), Some(s("Camera")));
}

#[test]
fn channel_again_keeps_subscriptions() {
    let mut b = Broker::new();
    b.step(Message::Channel(7, s("Camera")), 0);
    b.step(Message::Subscribe(7, s("/camera")), 0);
    let act = b.step(Message::Channel(7, s("Camera2")), 0);
    assert!(matches!(act, Action::Connect(7)));
    assert_eq!(b.registry().name_of(7), Some(s("Camera2")));
    assert_eq!(b.registry().subscribers(&s("/camera")), vec![7]);
}

#[test]
fn subscribe_unknown_service_forces_an_entry() {
    let mut b = Broker::new();
    let act = b.step(Message::Subscribe(42, s("/frames")), 0);
    assert!(matches!(act, Action::Discard(42)));
    assert_eq!(b.registry().name_of(42), Some(s("no name yet")));
    assert_eq!(b.registry().subscribers(&s("/frames")), vec![42]);
    let again = b.step(Message::Subscribe(42, s("/display")), 0);
    assert!(matches!(again, Action::Idle));
}

#[test]
fn events_reach_exactly_the_subscribers() {
    let mut b = Broker::new();
    b.step(Message::Channel(1, s("Camera")), 0);
    b.step(Message::Channel(2, s("Tensor")), 0);
    b.step(Message::Channel(3, s("Display")), 0);
    b.step(Message::Subscribe(2, s("/frames")), 0);
    b.step(Message::Subscribe(3, s("/display")), 0);
    match b.step(Message::Event(s("/frames"), s("[A FRAME OF VIDEO]")), 0) {
        Action::Forward(targets, topic, data) => {
            assert_eq!(targets, vec![2]);
            assert_eq!(topic, "/frames");
            assert_eq!(data, "[A FRAME OF VIDEO]");
        }
        _ => panic!("expected a forward"),
    }
    match b.step(Message::Event(s("/nowhere"), s("x")), 0) {
        Action::Forward(targets, _, _) => assert!(targets.is_empty()),
        _ => panic!("expected a forward"),
    }
}

#[test]
fn unsubscribed_service_gets_no_events() {
    let mut b = Broker::new();
    b.step(Message::Channel(2, s("Tensor")), 0);
    b.step(Message::Subscribe(2, s("/frames")), 0);
    b.step(Message::Unsubscribe(2, s("/frames")), 0);
    match b.step(Message::Event(s("/frames"), s("f")), 0) {
        Action::Forward(targets, _, _) => assert!(targets.is_empty()),
        _ => panic!("expected a forward"),
    }
}

#[test]
fn share_goes_to_one_display() {
    let mut b = Broker::new();
    assert!(matches!(b.step(Message::Share, 0), Action::ShareWith(None)));
    b.step(Message::Channel(3, s("Display")), 0);
    b.step(Message::Subscribe(3, s("/display")), 0);
    assert!(matches!(b.step(Message::Share, 0), Action::ShareWith(Some(3))));
}

#[test]
fn goto_launches_once() {
    let mut b = Broker::new();
    match b.step(Message::BrokerGoto(s("cubes.wasm")), 99) {
        Action::Launch(sid, name) => {
            assert_eq!(sid, 99);
            assert_eq!(name, "cubes.wasm");
        }
        _ => panic!("expected a launch"),
    }
    assert_eq!(b.registry().name_of(99), Some(s("cubes.wasm")));
    assert!(matches!(b.step(Message::BrokerGoto(s("cubes.wasm")), 100), Action::Idle));
    assert!(!b.registry().contains(100));
}

#[test]
fn goto_with_empty_url_starts_nothing() {
    let mut b = Broker::new();
    assert!(matches!(b.step(Message::BrokerGoto(s("")), 5), Action::Idle));
    assert!(!b.registry().contains(5));
}

#[test]
fn broker_keeps_routing_after_a_refused_url() {
    let mut b = Broker::new();
    b.step(Message::Channel(3, s("Display")), 0);
    b.step(Message::Subscribe(3, s("/display")), 0);
    b.step(Message::BrokerGoto(s("Display")), 9);
    b.step(Message::BrokerGoto(s("")), 9);
    match b.step(Message::Event(s("/display"), s("cube")), 0) {
        Action::Forward(targets, _, _) => assert_eq!(targets, vec![3]),
        _ => panic!("expected a forward"),
    }
}

#[test]
fn add_launches_under_the_given_identifier() {
    let mut b = Broker::new();
    match b.step(Message::Add(s("Tensor")), 11) {
        Action::Launch(11, name) => assert_eq!(name, "Tensor"),
        _ => panic!("expected a launch"),
    }
    assert_eq!(b.registry().name_of(11), Some(s("Tensor")));
}

#[test]
fn handle_draws_a_random_identifier_for_new_services() {
    let mut b = Broker::new();
    match b.handle(Message::Add(s("Tensor"))) {
        Action::Launch(sid, name) => {
            assert_eq!(name, "Tensor");
            assert_eq!(b.registry().name_of(sid), Some(s("Tensor")));
        }
        _ => panic!("expected a launch"),
    }
    assert!(matches!(b.handle(Message::Channel(4, s("Camera"))), Action::Connect(4)));
}

#[test]
fn kernel_registers_every_service_but_the_broker() {
    let names = vec![s("broker"), s("Camera"), s("Tensor"), s("Display")];
    let regs = Kernel::registrations(&names);
    assert_eq!(regs.len(), 3);
    let got: Vec<(u64, String)> = regs
        .into_iter()
        .map(|m| match m {
            Message::Channel(sid, name) => (sid, name),
            _ => panic!("expected a channel"),
        })
        .collect();
    let got_names: Vec<String> = got.iter().map(|(_, n)| n.clone()).collect();
    assert_eq!(got_names, vec![s("Camera"), s("Tensor"), s("Display")]);
    let mut ids: Vec<u64> = got.iter().map(|(sid, _)| *sid).collect();
    assert!(ids.iter().all(|&sid| sid != 0));
    ids.sort();
    ids.dedup();
    assert_eq!(ids.len(), 3);
    assert!(Kernel::registrations(&vec![s("broker")]).is_empty());
}

#[test]
fn kernel_gives_each_service_its_own_identifier() {
    let mut k = Kernel::new();
    let a = k.register("Camera");
    let b = k.register("Tensor");
    assert!(a != 0 && b != 0 && a != b);
}

#[test]
fn handle_never_reuses_an_identifier() {
    let mut b = Broker::new();
    let mut seen = Vec::new();
    for _ in 0..20 {
        match b.handle(Message::Add(s("Tensor"))) {
            Action::Launch(sid, _) => {
                assert!(!seen.contains(&sid));
                seen.push(sid);
            }
            _ => panic!("expected a launch"),
        }
    }
}
