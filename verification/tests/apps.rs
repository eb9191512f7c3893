use orbital::appbroker::{self, face_detector_reply, face_detector_subscription, AppBroker, AppMessage};
use orbital::appmanager::{self, AppManager};

fn s(x: &str) -> String {
    x.to_string()
}

fn sorted(mut v: Vec<u64>) -> Vec<u64> {
    v.sort();
    v
}

#[test]
fn app_broker_routes_app_messages_to_subscribers() {
    let mut b = AppBroker::new();
    let camera = b.add("camera");
    let face = b.add("face_detector");
    assert_eq!(b.apps().name_of(face), Some(s("face_detector")));
    assert_eq!(sorted(b.startup_targets()), sorted(vec![camera, face]));
    let none = b.handle(&appbroker::Message::Subscribe(face, s("/frames")));
    assert!(none.is_empty());
    let targets = b.handle(&appbroker::Message::App(s("/frames"), AppMessage::VideoFrame));
    assert_eq!(targets, vec![face]);
    assert!(b.handle(&appbroker::Message::App(s("/faces"), AppMessage::FaceCoords)).is_empty());
    b.handle(&appbroker::Message::Unsubscribe(face, s("/frames")));
    assert!(b.handle(&appbroker::Message::App(s("/frames"), AppMessage::VideoFrame)).is_empty());
}

#[test]
fn app_broker_ignores_lifecycle_messages() {
    let mut b = AppBroker::new();
    let a = b.add("a");
    b.handle(&appbroker::Message::Subscribe(a, s("/t")));
    for m in [appbroker::Message::Startup, appbroker::Message::Shutdown, appbroker::Message::Tick] {
        assert!(b.handle(&m).is_empty());
    }
    assert_eq!(b.apps().subscribers(&s("/t")), vec![a]);
}

#[test]
fn app_broker_stubs_do_nothing() {
    AppBroker::remove();
    AppBroker::start();
    AppBroker::stop();
    AppBroker::publish();
    AppBroker::listen();
    AppBroker::connect();
    AppBroker::disconnect();
}

#[test]
fn face_detector_answers_frames_with_faces() {
    match face_detector_reply(&appbroker::Message::App(s("/frames"), AppMessage::VideoFrame)) {
        Some(appbroker::Message::App(topic, AppMessage::FaceCoords)) => assert_eq!(topic, "/faces"),
        _ => panic!("expected face coordinates"),
    }
    assert!(face_detector_reply(&appbroker::Message::App(s("/frames"), AppMessage::FaceCoords)).is_none());
    assert!(face_detector_reply(&appbroker::Message::Tick).is_none());
}

#[test]
fn app_manager_routes_to_modules_by_chosen_identifier() {
    let mut m = AppManager::new();
    m.add(1, "camera");
    m.add(2, "face_detector");
    assert_eq!(sorted(m.startup_targets()), vec![1, 2]);
    m.handle(&appmanager::Message::Subscribe(2, s("/frames")));
    m.handle(&appmanager::Message::Subscribe(1, s("/frames")));
    assert_eq!(
        sorted(m.handle(&appmanager::Message::App(s("/frames"), appmanager::AppMessage::VideoFrame))),
        vec![1, 2]
    );
    m.handle(&appmanager::Message::Unsubscribe(1, s("/frames")));
    assert_eq!(m.handle(&appmanager::Message::App(s("/frames"), appmanager::AppMessage::VideoFrame)), vec![2]);
    m.add(2, "replacement");
    assert_eq!(m.modules().name_of(2), Some(s("replacement")));
    assert!(m.handle(&appmanager::Message::App(s("/frames"), appmanager::AppMessage::VideoFrame)).is_empty());
}

#[test]
fn app_manager_stubs_do_nothing() {
    AppManager::remove();
    AppManager::start();
    AppManager::stop();
    AppManager::publish();
    AppManager::listen();
    AppManager::connect();
    AppManager::disconnect();
}

#[test]
fn module_is_a_wrapper_without_topics() {
    let m = appmanager::Module::new("camera", 3);
    assert_eq!(m.sid, 3);
    assert_eq!(m.name, "camera");
    assert!(m.subscriptions.is_empty());
}

#[test]
fn app_broker_gives_each_app_its_own_identifier() {
    let mut b = AppBroker::new();
    let ids: Vec<u64> = (0..10).map(|_| b.add("app")).collect();
    let mut unique = ids.clone();
    unique.sort();
    unique.dedup();
    assert_eq!(unique.len(), ids.len());
}

#[test]
fn face_detector_subscribes_to_frames() {
    match face_detector_subscription(4) {
        appbroker::Message::Subscribe(4, topic) => assert_eq!(topic, "/frames"),
        _ => panic!("expected a subscription"),
    }
}
