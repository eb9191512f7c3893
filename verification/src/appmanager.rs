//! A publish/subscribe broker between modules, each registered by the
//! caller under an identifier of its choice: modules subscribe to topics and
//! publish app messages on them; the manager forwards each message to every
//! module that listens to its topic.
use vstd::prelude::*;

use crate::registry::{
    audience, law_audience_is_the_listeners, law_subscribe_adds_one_topic, law_unsubscribe_removes_one_topic, put,
    subscribe, unsubscribe, Registry, ServiceView, ServiceWrapper,
};

verus! {

/// Identifier of a module.
pub type MID = u64;

/// Application-specific payloads carried on a topic.
#[derive(PartialEq, Eq, Structural, Clone, Copy, Debug)]
pub enum AppMessage {
    /// A video frame.
    VideoFrame,
    /// Coordinates of a detected face.
    FaceCoords,
}

/// The messages modules and the manager exchange.
pub enum Message {
    /// Initialise the module.
    Startup,
    /// Shut the module down.
    Shutdown,
    /// A timer tick.
    Tick,
    /// The module `mid` listens to a topic from now on.
    Subscribe(MID, String),
    /// The module `mid` stops listening to a topic.
    Unsubscribe(MID, String),
    /// An app message on a topic.
    App(String, AppMessage),
}

/// What the manager remembers of a module.
pub type Module = ServiceWrapper;

/// The messages the manager handles without failing: only registered
/// modules subscribe and unsubscribe.
pub open spec fn accepts(m: Map<MID, ServiceView>, msg: Message) -> bool {
    match msg {
        Message::Subscribe(mid, _) => m.dom().contains(mid),
        Message::Unsubscribe(mid, _) => m.dom().contains(mid),
        _ => true,
    }
}

/// From registry `pre`, the message `msg` leads to registry `post`, and a
/// copy of it goes to each module in `targets`.
pub open spec fn delivered(pre: Map<MID, ServiceView>, msg: Message, post: Map<MID, ServiceView>, targets: Seq<MID>) -> bool {
    match msg {
        Message::Subscribe(mid, topic) => post == subscribe(pre, mid, topic@) && targets.len() == 0,
        Message::Unsubscribe(mid, topic) => post == unsubscribe(pre, mid, topic@) && targets.len() == 0,
        Message::App(topic, _) => post == pre && audience(pre, topic@, targets),
        _ => post == pre && targets.len() == 0,
    }
}

/// Once an module has subscribed to a topic, every app message published on
/// that topic is delivered to it; once it has unsubscribed, none is.
pub proof fn law_subscription_decides_delivery(
    pre: Map<MID, ServiceView>,
    change: Message,
    between: Map<MID, ServiceView>,
    first: Seq<MID>,
    publish: Message,
    post: Map<MID, ServiceView>,
    targets: Seq<MID>,
)
    requires
        accepts(pre, change),
        delivered(pre, change, between, first),
        delivered(between, publish, post, targets),
        publish matches Message::App(_, _),
    ensures
        change matches Message::Subscribe(id, topic) ==> (topic@ == publish->App_0@ ==> targets.contains(id)),
        change matches Message::Unsubscribe(id, topic) ==> (topic@ == publish->App_0@ ==> !targets.contains(id)),
{
}

/// Subscribing adds the topic to that module, keeps its name and its other
/// topics, and leaves every other module as it was; nothing is sent.
pub proof fn law_subscribe_is_local(
    pre: Map<MID, ServiceView>,
    msg: Message,
    post: Map<MID, ServiceView>,
    targets: Seq<MID>,
    other: MID,
    other_topic: Seq<char>,
)
    requires
        msg matches Message::Subscribe(_, _),
        accepts(pre, msg),
        delivered(pre, msg, post, targets),
    ensures
        targets.len() == 0,
        post.dom() == pre.dom(),
        post[msg->Subscribe_0].topics.contains(msg->Subscribe_1@),
        other_topic != msg->Subscribe_1@ ==> (post[msg->Subscribe_0].topics.contains(other_topic)
            == pre[msg->Subscribe_0].topics.contains(other_topic)),
        post[msg->Subscribe_0].name == pre[msg->Subscribe_0].name,
        other != msg->Subscribe_0 && pre.dom().contains(other) ==> post[other] == pre[other],
{
    law_subscribe_adds_one_topic(pre, msg->Subscribe_0, msg->Subscribe_1@, other, other_topic);
}

/// Unsubscribing removes the topic from that module, keeps its name and its
/// other topics, and leaves every other module as it was; nothing is sent.
pub proof fn law_unsubscribe_is_local(
    pre: Map<MID, ServiceView>,
    msg: Message,
    post: Map<MID, ServiceView>,
    targets: Seq<MID>,
    other: MID,
    other_topic: Seq<char>,
)
    requires
        msg matches Message::Unsubscribe(_, _),
        accepts(pre, msg),
        delivered(pre, msg, post, targets),
    ensures
        targets.len() == 0,
        post.dom() == pre.dom(),
        !post[msg->Unsubscribe_0].topics.contains(msg->Unsubscribe_1@),
        other_topic != msg->Unsubscribe_1@ ==> (post[msg->Unsubscribe_0].topics.contains(other_topic)
            == pre[msg->Unsubscribe_0].topics.contains(other_topic)),
        post[msg->Unsubscribe_0].name == pre[msg->Unsubscribe_0].name,
        other != msg->Unsubscribe_0 && pre.dom().contains(other) ==> post[other] == pre[other],
{
    law_unsubscribe_removes_one_topic(pre, msg->Unsubscribe_0, msg->Unsubscribe_1@, other, other_topic);
}

/// An app message goes to exactly the registered modules that have its topic
/// among their topics, each once; any other message that is not a
/// subscription goes nowhere. Neither changes the registry.
pub proof fn law_delivery_reaches_listeners(
    pre: Map<MID, ServiceView>,
    msg: Message,
    post: Map<MID, ServiceView>,
    targets: Seq<MID>,
    id: MID,
)
    requires
        !(msg matches Message::Subscribe(_, _)),
        !(msg matches Message::Unsubscribe(_, _)),
        delivered(pre, msg, post, targets),
    ensures
        post == pre,
        msg matches Message::App(topic, _) ==> (targets.contains(id) <==> (pre.dom().contains(id) && pre[id].topics.contains(
            topic@,
        ))) && targets.no_duplicates(),
        !(msg matches Message::App(_, _)) ==> targets.len() == 0,
{
    if let Message::App(topic, _) = msg {
        law_audience_is_the_listeners(pre, topic@, targets, id);
    }
}

/// The manager.
pub struct AppManager {
    modules: Registry,
}

impl View for AppManager {
    type V = Map<MID, ServiceView>;

    closed spec fn view(&self) -> Map<MID, ServiceView> {
        self.modules@
    }
}

impl AppManager {
    /// A manager without modules.
    pub fn new() -> (m: AppManager)
        ensures
            m@ == Map::<MID, ServiceView>::empty(),
    {
        AppManager { modules: Registry::new() }
    }

    /// The modules the manager knows.
    pub fn modules(&self) -> (r: &Registry)
        ensures
            r@ == self@,
    {
        &self.modules
    }

    /// Registers a module called `name` under `mid`; a module registered
    /// under `mid` before is replaced.
    pub fn add(&mut self, mid: MID, name: &str)
        ensures
            final(self)@ == put(old(self)@, mid, name@),
    {
        self.modules.put(mid, name);
    }

    /// The modules that get the startup message when the manager starts to
    /// run: every registered module, each once.
    pub fn startup_targets(&self) -> (r: Vec<MID>)
        ensures
            r@.no_duplicates(),
            forall|mid: MID| r@.contains(mid) <==> self@.dom().contains(mid),
    {
        self.modules.sids()
    }

    /// Handles one message and returns the modules that get a copy of it.
    pub fn handle(&mut self, msg: &Message) -> (targets: Vec<MID>)
        requires
            accepts(old(self)@, *msg),
        ensures
            delivered(old(self)@, *msg, final(self)@, targets@),
    {
        match msg {
            Message::Subscribe(mid, topic) => {
                self.modules.subscribe(*mid, topic.clone());
                Vec::new()
            },
            Message::Unsubscribe(mid, topic) => {
                self.modules.unsubscribe(*mid, topic);
                Vec::new()
            },
            Message::App(topic, _) => self.modules.subscribers(topic),
            _ => Vec::new(),
        }
    }

    /// Does nothing.
    pub fn remove() {
    }

    /// Does nothing.
    pub fn start() {
    }

    /// Does nothing.
    pub fn stop() {
    }

    /// Does nothing.
    pub fn publish() {
    }

    /// Does nothing.
    pub fn listen() {
    }

    /// Does nothing.
    pub fn connect() {
    }

    /// Does nothing.
    pub fn disconnect() {
    }
}

} // verus!
