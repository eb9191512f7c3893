//! A publish/subscribe broker between apps: apps subscribe to topics and
//! publish app messages on them; the broker forwards each message to every
//! app that listens to its topic.
use vstd::prelude::*;

use crate::kernel::random_sid;
use crate::registry::{
    audience, law_audience_is_the_listeners, law_subscribe_adds_one_topic, law_unsubscribe_removes_one_topic, put,
    subscribe, unsubscribe, Registry, ServiceView, ServiceWrapper,
};

verus! {

/// Identifier of an app.
pub type AID = u64;

/// Application-specific payloads carried on a topic.
#[derive(PartialEq, Eq, Structural, Clone, Copy, Debug)]
pub enum AppMessage {
    /// A video frame.
    VideoFrame,
    /// Coordinates of a detected face.
    FaceCoords,
}

/// The messages apps and the broker exchange.
pub enum Message {
    /// Initialise the app.
    Startup,
    /// Shut the app down.
    Shutdown,
    /// A timer tick.
    Tick,
    /// The app `aid` listens to a topic from now on.
    Subscribe(AID, String),
    /// The app `aid` stops listening to a topic.
    Unsubscribe(AID, String),
    /// An app message on a topic.
    App(String, AppMessage),
}

/// What the broker remembers of an app.
pub type AppWrapper = ServiceWrapper;

/// The messages the broker handles without failing: only registered apps
/// subscribe and unsubscribe.
pub open spec fn accepts(m: Map<AID, ServiceView>, msg: Message) -> bool {
    match msg {
        Message::Subscribe(aid, _) => m.dom().contains(aid),
        Message::Unsubscribe(aid, _) => m.dom().contains(aid),
        _ => true,
    }
}

/// From registry `pre`, the message `msg` leads to registry `post`, and a
/// copy of it goes to each app in `targets`.
pub open spec fn delivered(pre: Map<AID, ServiceView>, msg: Message, post: Map<AID, ServiceView>, targets: Seq<AID>) -> bool {
    match msg {
        Message::Subscribe(aid, topic) => post == subscribe(pre, aid, topic@) && targets.len() == 0,
        Message::Unsubscribe(aid, topic) => post == unsubscribe(pre, aid, topic@) && targets.len() == 0,
        Message::App(topic, _) => post == pre && audience(pre, topic@, targets),
        _ => post == pre && targets.len() == 0,
    }
}

/// Once an app has subscribed to a topic, every app message published on
/// that topic is delivered to it; once it has unsubscribed, none is.
pub proof fn law_subscription_decides_delivery(
    pre: Map<AID, ServiceView>,
    change: Message,
    between: Map<AID, ServiceView>,
    first: Seq<AID>,
    publish: Message,
    post: Map<AID, ServiceView>,
    targets: Seq<AID>,
)
    requires
        accepts(pre, change),
        delivered(pre, change, between, first),
        delivered(between, publish, post, targets),
        publish matches Message::App(_, _),
    ensures
        change matches Message::Subscribe(id, topic) ==> (topic@ == publish->App_0@ ==> targets.contains(id)),
        change matches Message::Unsubscribe(id, topic) ==> (topic@ == publish->App_0@ ==> !targets.contains(id)),
{
}

/// Subscribing adds the topic to that app, keeps its name and its other
/// topics, and leaves every other app as it was; nothing is sent.
pub proof fn law_subscribe_is_local(
    pre: Map<AID, ServiceView>,
    msg: Message,
    post: Map<AID, ServiceView>,
    targets: Seq<AID>,
    other: AID,
    other_topic: Seq<char>,
)
    requires
        msg matches Message::Subscribe(_, _),
        accepts(pre, msg),
        delivered(pre, msg, post, targets),
    ensures
        targets.len() == 0,
        post.dom() == pre.dom(),
        post[msg->Subscribe_0].topics.contains(msg->Subscribe_1@),
        other_topic != msg->Subscribe_1@ ==> (post[msg->Subscribe_0].topics.contains(other_topic)
            == pre[msg->Subscribe_0].topics.contains(other_topic)),
        post[msg->Subscribe_0].name == pre[msg->Subscribe_0].name,
        other != msg->Subscribe_0 && pre.dom().contains(other) ==> post[other] == pre[other],
{
    law_subscribe_adds_one_topic(pre, msg->Subscribe_0, msg->Subscribe_1@, other, other_topic);
}

/// Unsubscribing removes the topic from that app, keeps its name and its
/// other topics, and leaves every other app as it was; nothing is sent.
pub proof fn law_unsubscribe_is_local(
    pre: Map<AID, ServiceView>,
    msg: Message,
    post: Map<AID, ServiceView>,
    targets: Seq<AID>,
    other: AID,
    other_topic: Seq<char>,
)
    requires
        msg matches Message::Unsubscribe(_, _),
        accepts(pre, msg),
        delivered(pre, msg, post, targets),
    ensures
        targets.len() == 0,
        post.dom() == pre.dom(),
        !post[msg->Unsubscribe_0].topics.contains(msg->Unsubscribe_1@),
        other_topic != msg->Unsubscribe_1@ ==> (post[msg->Unsubscribe_0].topics.contains(other_topic)
            == pre[msg->Unsubscribe_0].topics.contains(other_topic)),
        post[msg->Unsubscribe_0].name == pre[msg->Unsubscribe_0].name,
        other != msg->Unsubscribe_0 && pre.dom().contains(other) ==> post[other] == pre[other],
{
    law_unsubscribe_removes_one_topic(pre, msg->Unsubscribe_0, msg->Unsubscribe_1@, other, other_topic);
}

/// An app message goes to exactly the registered apps that have its topic
/// among their topics, each once; any other message that is not a
/// subscription goes nowhere. Neither changes the registry.
pub proof fn law_delivery_reaches_listeners(
    pre: Map<AID, ServiceView>,
    msg: Message,
    post: Map<AID, ServiceView>,
    targets: Seq<AID>,
    id: AID,
)
    requires
        !(msg matches Message::Subscribe(_, _)),
        !(msg matches Message::Unsubscribe(_, _)),
        delivered(pre, msg, post, targets),
    ensures
        post == pre,
        msg matches Message::App(topic, _) ==> (targets.contains(id) <==> (pre.dom().contains(id) && pre[id].topics.contains(
            topic@,
        ))) && targets.no_duplicates(),
        !(msg matches Message::App(_, _)) ==> targets.len() == 0,
{
    if let Message::App(topic, _) = msg {
        law_audience_is_the_listeners(pre, topic@, targets, id);
    }
}

/// The broker.
pub struct AppBroker {
    apps: Registry,
}

impl View for AppBroker {
    type V = Map<AID, ServiceView>;

    closed spec fn view(&self) -> Map<AID, ServiceView> {
        self.apps@
    }
}

impl AppBroker {
    /// A broker without apps.
    pub fn new() -> (b: AppBroker)
        ensures
            b@ == Map::<AID, ServiceView>::empty(),
    {
        AppBroker { apps: Registry::new() }
    }

    /// The apps the broker knows.
    pub fn apps(&self) -> (r: &Registry)
        ensures
            r@ == self@,
    {
        &self.apps
    }

    /// Registers an app called `name` under a random identifier that no
    /// registered app has, and returns it.
    pub fn add(&mut self, name: &str) -> (aid: AID)
        ensures
            !old(self)@.dom().contains(aid),
            final(self)@ == put(old(self)@, aid, name@),
    {
        let aid = self.apps.fresh_id(random_sid());
        self.apps.put(aid, name);
        aid
    }

    /// The apps that get the startup message when the broker starts to run:
    /// every registered app, each once.
    pub fn startup_targets(&self) -> (r: Vec<AID>)
        ensures
            r@.no_duplicates(),
            forall|aid: AID| r@.contains(aid) <==> self@.dom().contains(aid),
    {
        self.apps.sids()
    }

    /// Handles one message and returns the apps that get a copy of it.
    pub fn handle(&mut self, msg: &Message) -> (targets: Vec<AID>)
        requires
            accepts(old(self)@, *msg),
        ensures
            delivered(old(self)@, *msg, final(self)@, targets@),
    {
        match msg {
            Message::Subscribe(aid, topic) => {
                self.apps.subscribe(*aid, topic.clone());
                Vec::new()
            },
            Message::Unsubscribe(aid, topic) => {
                self.apps.unsubscribe(*aid, topic);
                Vec::new()
            },
            Message::App(topic, _) => self.apps.subscribers(topic),
            _ => Vec::new(),
        }
    }

    /// Does nothing.
    pub fn remove() {
    }

    /// Does nothing.
    pub fn start() {
    }

    /// Does nothing.
    pub fn stop() {
    }

    /// Does nothing.
    pub fn publish() {
    }

    /// Does nothing.
    pub fn listen() {
    }

    /// Does nothing.
    pub fn connect() {
    }

    /// Does nothing.
    pub fn disconnect() {
    }
}

/// The face detector app listens to video frames on "/frames".
pub fn face_detector_subscription(aid: AID) -> (m: Message)
    ensures
        m matches Message::Subscribe(a, topic) && a == aid && topic@ == "/frames"@,
{
    Message::Subscribe(aid, "/frames".to_owned())
}

/// The face detector app's answer to a message: a video frame on any topic
/// is answered with face coordinates on "/faces"; anything else with
/// nothing.
pub fn face_detector_reply(msg: &Message) -> (r: Option<Message>)
    ensures
        match *msg {
            Message::App(_, AppMessage::VideoFrame) => r matches Some(Message::App(topic, AppMessage::FaceCoords)) && topic@ == "/faces"@,
            _ => r is None,
        },
{
    match msg {
        Message::App(_, AppMessage::VideoFrame) => Some(Message::App("/faces".to_owned(), AppMessage::FaceCoords)),
        _ => None,
    }
}

} // verus!
