use orbital::basic;
use orbital::broker::Action;
use orbital::kernel::Message;
use orbital::services::{Camera, Display, Tensor, Wasm};

fn s(x: &str) -> String {
    x.to_string()
}

fn event(m: Message) -> (String, String) {
    match m {
        Message::Event(t, d) => (t, d),
        _ => panic!("expected an event"),
    }
}

#[test]
fn camera_answers_events_with_frames() {
    let r = Camera::react(&Message::Event(s("/camera"), s("WASM->Camera: Give me a Frame"))).unwrap();
    assert_eq!(event(r), (s("/frames"), s("[A FRAME OF VIDEO]")));
    assert!(Camera::react(&Message::Share).is_none());
}

#[test]
fn tensor_subscribes_to_frames_and_reports_faces() {
    match Tensor::subscription(8) {
        Message::Subscribe(8, topic) => assert_eq!(topic, "/frames"),
        _ => panic!("expected a subscription"),
    }
    let r = Tensor::react(&Message::Event(s("/frames"), s("f"))).unwrap();
    assert_eq!(event(r), (s("/display"), s("[Face->Display: here is a face]")));
    assert!(Tensor::react(&Message::Add(s("x"))).is_none());
}

#[test]
fn display_subscribes_and_picks_scene_kinds() {
    match Display::subscription(3) {
        Message::Subscribe(3, topic) => assert_eq!(topic, "/display"),
        _ => panic!("expected a subscription"),
    }
    assert_eq!(Display::scene_kind(&s("cube")), 1);
    assert_eq!(Display::scene_kind(&s("WASM->Display: Show Frame")), 2);
    assert_eq!(Display::scene_kind(&s("")), 2);
}

#[test]
fn wasm_host_functions_send_fixed_events() {
    let r: Vec<(String, String)> = Wasm::frame_request().into_iter().map(event).collect();
    assert_eq!(
        r,
        vec![
            (s("/camera"), s("WASM->Camera: Give me a Frame")),
            (s("/display"), s("WASM->Display: Show Frame"))
        ]
    );
    assert_eq!(event(Wasm::cube_request()), (s("/display"), s("cube")));
}

#[test]
fn basic_broker_channel_again_starts_afresh() {
    let mut b = basic::Broker::new();
    assert!(matches!(b.step(basic::Message::Channel(1, s("Display")), 0), Action::Connect(1)));
    b.step(basic::Message::Subscribe(1, s("/display")), 0);
    b.step(basic::Message::Channel(1, s("Display")), 0);
    match b.step(basic::Message::Event(s("/display"), s("hi")), 0) {
        Action::Forward(targets, _, _) => assert!(targets.is_empty()),
        _ => panic!("expected a forward"),
    }
}

#[test]
fn basic_broker_keeps_early_subscriptions() {
    let mut b = basic::Broker::new();
    assert!(matches!(b.step(basic::Message::Subscribe(5, s("/display")), 0), Action::Discard(5)));
    assert_eq!(b.registry().name_of(5), Some(s("no name yet")));
    assert!(matches!(b.step(basic::Message::Channel(5, s("Display")), 0), Action::Connect(5)));
    assert_eq!(b.registry().name_of(5), Some(s("Display")));
    match b.step(basic::Message::Event(s("/display"), s("hi")), 0) {
        Action::Forward(targets, _, _) => assert_eq!(targets, vec![5]),
        _ => panic!("expected a forward"),
    }
}

#[test]
fn basic_broker_routes_and_adds() {
    let mut b = basic::Broker::new();
    b.step(basic::Message::Channel(1, s("Tensor")), 0);
    b.step(basic::Message::Subscribe(1, s("/frames")), 0);
    match b.step(basic::Message::Event(s("/frames"), s("AMAZING!")), 0) {
        Action::Forward(targets, t, d) => {
            assert_eq!(targets, vec![1]);
            assert_eq!((t, d), (s("/frames"), s("AMAZING!")));
        }
        _ => panic!("expected a forward"),
    }
    b.step(basic::Message::Unsubscribe(1, s("/frames")), 0);
    match b.step(basic::Message::Event(s("/frames"), s("AMAZING!")), 0) {
        Action::Forward(targets, _, _) => assert!(targets.is_empty()),
        _ => panic!("expected a forward"),
    }
    match b.handle(basic::Message::Add(s("Wasm"))) {
        Action::Launch(sid, name) => {
            assert_eq!(name, "Wasm");
            assert_eq!(b.registry().name_of(sid), Some(s("Wasm")));
        }
        _ => panic!("expected a launch"),
    }
}

#[test]
fn basic_services_say_what_they_should() {
    match basic::Camera::frame_event() {
        basic::Message::Event(t, d) => assert_eq!((t, d), (s("/frames"), s("AMAZING!"))),
        _ => panic!("expected an event"),
    }
    match basic::Tensor::react(&basic::Message::Event(s("/frames"), s("AMAZING!"))) {
        Some(basic::Message::Event(t, d)) => assert_eq!((t, d), (s("/display"), s("hi"))),
        _ => panic!("expected an event"),
    }
    assert!(basic::Tensor::react(&basic::Message::Add(s("x"))).is_none());
    assert!(matches!(basic::Tensor::subscription(2), basic::Message::Subscribe(2, _)));
    match basic::Display::subscription(4) {
        basic::Message::Subscribe(4, t) => assert_eq!(t, "/display"),
        _ => panic!("expected a subscription"),
    }
}
