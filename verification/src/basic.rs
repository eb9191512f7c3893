//! The simpler kernel: services register channels, subscribe, publish
//! events and may be added at runtime, without shared frames or app
//! loading. Registering the channel of a service that has one already
//! starts it afresh, without topics. A service may subscribe before its
//! channel is first registered: it is entered then, and keeps its topics
//! when the channel arrives.
use vstd::prelude::*;

use crate::broker::{unnamed, Action};
use crate::kernel::random_sid;
use crate::registry::{
    audience, law_audience_is_the_listeners, law_put_touches_only_its_service,
    law_subscribe_adds_one_topic, law_unsubscribe_removes_one_topic, listens, put, revise, subscribe,
    unsubscribe, Registry, ServiceView,
};
use crate::SID;

verus! {

/// What the broker of the simpler kernel receives; the sending end of a
/// registered channel and the constructor of a service stay with the caller.
pub enum Message {
    /// Register the channel of the service `sid` called `name`.
    Channel(SID, String),
    /// The service `sid` listens to a topic from now on.
    Subscribe(SID, String),
    /// The service `sid` stops listening to a topic.
    Unsubscribe(SID, String),
    /// An event `(topic, data)` for every service listening to the topic.
    Event(String, String),
    /// A service built at runtime, under the name it gives itself.
    Add(String),
}

/// The messages this broker handles without failing: only registered
/// services unsubscribe.
pub open spec fn accepts(m: Map<SID, ServiceView>, msg: Message) -> bool {
    match msg {
        Message::Unsubscribe(sid, _) => m.dom().contains(sid),
        _ => true,
    }
}

/// The services whose channel is registered, after `msg`: a registered
/// channel and a service added at runtime (under `fresh`) have one.
pub open spec fn connected_after(connected: Set<SID>, msg: Message, fresh: SID) -> Set<SID> {
    match msg {
        Message::Channel(sid, _) => connected.insert(sid),
        Message::Add(_) => connected.insert(fresh),
        _ => connected,
    }
}

/// One step of this broker, as `crate::broker::routed` is for the kernel's;
/// `connected` holds the services whose channel is registered already.
pub open spec fn routed(
    pre: Map<SID, ServiceView>,
    connected: Set<SID>,
    msg: Message,
    fresh: SID,
    post: Map<SID, ServiceView>,
    act: Action,
) -> bool {
    match msg {
        Message::Channel(sid, name) => {
            &&& act == Action::Connect(sid)
            &&& if connected.contains(sid) {
                post == put(pre, sid, name@)
            } else {
                post == revise(pre, sid, name@)
            }
        },
        Message::Subscribe(sid, topic) => {
            if pre.dom().contains(sid) {
                post == subscribe(pre, sid, topic@) && act == Action::Idle
            } else {
                post == subscribe(put(pre, sid, unnamed()), sid, topic@) && act == Action::Discard(sid)
            }
        },
        Message::Unsubscribe(sid, topic) => post == unsubscribe(pre, sid, topic@) && act == Action::Idle,
        Message::Event(topic, data) => {
            &&& post == pre
            &&& act matches Action::Forward(targets, t, d)
            &&& t == topic
            &&& d == data
            &&& audience(pre, topic@, targets@)
        },
        Message::Add(name) => post == put(pre, fresh, name@) && act == Action::Launch(fresh, name),
    }
}

/// The broker of the simpler kernel.
pub struct Broker {
    registry: Registry,
    channels: Registry,
}

impl View for Broker {
    type V = Map<SID, ServiceView>;

    closed spec fn view(&self) -> Map<SID, ServiceView> {
        self.registry@
    }
}

impl Broker {
    /// The services whose channel is registered.
    pub closed spec fn connected(&self) -> Set<SID> {
        self.channels@.dom()
    }

    /// A broker that knows no service yet.
    pub fn new() -> (b: Broker)
        ensures
            b@ == Map::<SID, ServiceView>::empty(),
            b.connected() == Set::<SID>::empty(),
    {
        Broker { registry: Registry::new(), channels: Registry::new() }
    }

    /// The registry the broker keeps.
    pub fn registry(&self) -> (r: &Registry)
        ensures
            r@ == self@,
    {
        &self.registry
    }

    /// Handles one message; a service added by it gets the identifier
    /// `fresh`.
    pub fn step(&mut self, msg: Message, fresh: SID) -> (act: Action)
        requires
            accepts(old(self)@, msg),
        ensures
            routed(old(self)@, old(self).connected(), msg, fresh, final(self)@, act),
            final(self).connected() == connected_after(old(self).connected(), msg, fresh),
    {
        match msg {
            Message::Channel(sid, name) => {
                if self.channels.contains(sid) {
                    self.registry.put(sid, name.as_str());
                } else {
                    self.registry.revise(sid, name.as_str());
                }
                self.channels.put(sid, name.as_str());
                Action::Connect(sid)
            },
            Message::Subscribe(sid, topic) => {
                let known = self.registry.contains(sid);
                if !known {
                    self.registry.put(sid, "no name yet");
                }
                self.registry.subscribe(sid, topic);
                if known {
                    Action::Idle
                } else {
                    Action::Discard(sid)
                }
            },
            Message::Unsubscribe(sid, topic) => {
                self.registry.unsubscribe(sid, &topic);
                Action::Idle
            },
            Message::Event(topic, data) => {
                let targets = self.registry.subscribers(&topic);
                Action::Forward(targets, topic, data)
            },
            Message::Add(name) => {
                self.registry.put(fresh, name.as_str());
                self.channels.put(fresh, name.as_str());
                Action::Launch(fresh, name)
            },
        }
    }

    /// Handles one message; a service added by it gets a random identifier
    /// that no registered service has.
    pub fn handle(&mut self, msg: Message) -> (act: Action)
        requires
            accepts(old(self)@, msg),
        ensures
            exists|fresh: SID|
                #![trigger routed(old(self)@, old(self).connected(), msg, fresh, final(self)@, act)]
                {
                    &&& !old(self)@.dom().contains(fresh)
                    &&& routed(old(self)@, old(self).connected(), msg, fresh, final(self)@, act)
                    &&& final(self).connected() == connected_after(old(self).connected(), msg, fresh)
                },
    {
        let fresh = match &msg {
            Message::Add(_) => self.registry.fresh_id(random_sid()),
            _ => self.registry.fresh_id(0),
        };
        let act = self.step(msg, fresh);
        assert(routed(old(self)@, old(self).connected(), msg, fresh, self@, act));
        act
    }
}

/// `msg` is the event `(topic, data)`.
pub open spec fn is_event(msg: Message, topic: Seq<char>, data: Seq<char>) -> bool {
    msg matches Message::Event(t, d) && t@ == topic && d@ == data
}

/// The camera service of the simpler kernel.
#[derive(Clone, Copy)]
pub struct Camera {}

/// The tensor service of the simpler kernel.
#[derive(Clone, Copy)]
pub struct Tensor {}

/// The display service of the simpler kernel.
#[derive(Clone, Copy)]
pub struct Display {}

impl Camera {
    /// The event the camera publishes after each capture.
    pub fn frame_event() -> (m: Message)
        ensures
            is_event(m, "/frames"@, "AMAZING!"@),
    {
        Message::Event("/frames".to_owned(), "AMAZING!".to_owned())
    }
}

impl Tensor {
    /// The tensor service listens to camera frames.
    pub fn subscription(sid: SID) -> (m: Message)
        ensures
            m matches Message::Subscribe(s, topic) && s == sid && topic@ == "/frames"@,
    {
        Message::Subscribe(sid, "/frames".to_owned())
    }

    /// The tensor service answers every event with a greeting to the
    /// display, and ignores anything else.
    pub fn react(msg: &Message) -> (r: Option<Message>)
        ensures
            match *msg {
                Message::Event(_, _) => r matches Some(m) && is_event(m, "/display"@, "hi"@),
                _ => r is None,
            },
    {
        match msg {
            Message::Event(_, _) => Some(Message::Event("/display".to_owned(), "hi".to_owned())),
            _ => None,
        }
    }
}

impl Display {
    /// The display listens to "/display".
    pub fn subscription(sid: SID) -> (m: Message)
        ensures
            m matches Message::Subscribe(s, topic) && s == sid && topic@ == "/display"@,
    {
        Message::Subscribe(sid, "/display".to_owned())
    }
}

/// A service that subscribes before its channel is first registered gets
/// the events on that topic once the channel arrives.
pub proof fn law_early_subscription_is_kept(
    pre: Map<SID, ServiceView>,
    connected: Set<SID>,
    sub: Message,
    chan: Message,
    event: Message,
    fresh: SID,
    m1: Map<SID, ServiceView>,
    a1: Action,
    m2: Map<SID, ServiceView>,
    a2: Action,
    post: Map<SID, ServiceView>,
    a3: Action,
)
    requires
        sub matches Message::Subscribe(_, _),
        chan matches Message::Channel(_, _),
        event matches Message::Event(_, _),
        chan->Channel_0 == sub->Subscribe_0,
        event->Event_0@ == sub->Subscribe_1@,
        !connected.contains(sub->Subscribe_0),
        routed(pre, connected, sub, fresh, m1, a1),
        routed(m1, connected_after(connected, sub, fresh), chan, fresh, m2, a2),
        routed(m2, connected_after(connected_after(connected, sub, fresh), chan, fresh), event, fresh, post, a3),
    ensures
        a3 matches Action::Forward(targets, _, _) && targets@.contains(sub->Subscribe_0),
{
    let sid = sub->Subscribe_0;
    let topic = sub->Subscribe_1@;
    if !pre.dom().contains(sid) {
        assert(put(pre, sid, unnamed()).dom().contains(sid));
    }
    assert(listens(m1, sid, topic));
    assert(listens(m2, sid, topic));
}

/// Registering again the channel of a service that has one starts the
/// service afresh: it listens to no topic, whatever it listened to before.
pub proof fn law_channel_again_forgets_topics(
    pre: Map<SID, ServiceView>,
    connected: Set<SID>,
    msg: Message,
    fresh: SID,
    post: Map<SID, ServiceView>,
    act: Action,
)
    requires
        msg matches Message::Channel(_, _),
        connected.contains(msg->Channel_0),
        routed(pre, connected, msg, fresh, post, act),
    ensures
        post.dom().contains(msg->Channel_0),
        post[msg->Channel_0].topics == Set::<Seq<char>>::empty(),
{
}


/// A subscription step adds the topic to that service (entering it if it
/// was unknown), keeps its name and its other topics, and leaves every other
/// service as it was.
pub proof fn law_subscribe_step_is_local(
    pre: Map<SID, ServiceView>, connected: Set<SID>,
    msg: Message,
    fresh: SID,
    post: Map<SID, ServiceView>,
    act: Action,
    other: SID,
    other_topic: Seq<char>,
)
    requires
        msg matches Message::Subscribe(_, _),
        routed(pre, connected, msg, fresh, post, act),
    ensures
        post.dom() == pre.dom().insert(msg->Subscribe_0),
        post[msg->Subscribe_0].topics.contains(msg->Subscribe_1@),
        other_topic != msg->Subscribe_1@ ==> (post[msg->Subscribe_0].topics.contains(other_topic) == (pre.dom().contains(
            msg->Subscribe_0,
        ) && pre[msg->Subscribe_0].topics.contains(other_topic))),
        pre.dom().contains(msg->Subscribe_0) ==> post[msg->Subscribe_0].name == pre[msg->Subscribe_0].name,
        other != msg->Subscribe_0 && pre.dom().contains(other) ==> post[other] == pre[other],
{
    let sid = msg->Subscribe_0;
    let topic = msg->Subscribe_1@;
    if pre.dom().contains(sid) {
        law_subscribe_adds_one_topic(pre, sid, topic, other, other_topic);
        assert(pre.dom().insert(sid) =~= pre.dom());
    } else {
        let entered = put(pre, sid, unnamed());
        law_put_touches_only_its_service(pre, sid, unnamed(), other);
        law_subscribe_adds_one_topic(entered, sid, topic, other, other_topic);
    }
}

/// An unsubscription step removes the topic from that service, keeps its
/// name and its other topics, and leaves every other service as it was.
pub proof fn law_unsubscribe_step_is_local(
    pre: Map<SID, ServiceView>, connected: Set<SID>,
    msg: Message,
    fresh: SID,
    post: Map<SID, ServiceView>,
    act: Action,
    other: SID,
    other_topic: Seq<char>,
)
    requires
        msg matches Message::Unsubscribe(_, _),
        pre.dom().contains(msg->Unsubscribe_0),
        routed(pre, connected, msg, fresh, post, act),
    ensures
        post.dom() == pre.dom(),
        act == Action::Idle,
        !post[msg->Unsubscribe_0].topics.contains(msg->Unsubscribe_1@),
        other_topic != msg->Unsubscribe_1@ ==> (post[msg->Unsubscribe_0].topics.contains(other_topic)
            == pre[msg->Unsubscribe_0].topics.contains(other_topic)),
        post[msg->Unsubscribe_0].name == pre[msg->Unsubscribe_0].name,
        other != msg->Unsubscribe_0 && pre.dom().contains(other) ==> post[other] == pre[other],
{
    law_unsubscribe_removes_one_topic(pre, msg->Unsubscribe_0, msg->Unsubscribe_1@, other, other_topic);
}

/// An event goes, unchanged, to exactly the registered services that have
/// its topic among their topics, each once, and the registry stays as it
/// was.
pub proof fn law_event_reaches_listeners(
    pre: Map<SID, ServiceView>, connected: Set<SID>,
    msg: Message,
    fresh: SID,
    post: Map<SID, ServiceView>,
    act: Action,
    sid: SID,
)
    requires
        msg matches Message::Event(_, _),
        routed(pre, connected, msg, fresh, post, act),
    ensures
        post == pre,
        act matches Action::Forward(targets, topic, data) && topic@ == msg->Event_0@ && data@ == msg->Event_1@
            && (targets@.contains(sid) <==> (pre.dom().contains(sid) && pre[sid].topics.contains(msg->Event_0@)))
            && targets@.no_duplicates(),
{
    if let Action::Forward(targets, _, _) = act {
        law_audience_is_the_listeners(pre, msg->Event_0@, targets@, sid);
    }
}

/// A service added at runtime is registered under the identifier drawn for
/// it, with its own name and no topics, and is started; every other service
/// stays as it was.
pub proof fn law_add_launches_only_the_new_service(
    pre: Map<SID, ServiceView>, connected: Set<SID>,
    msg: Message,
    fresh: SID,
    post: Map<SID, ServiceView>,
    act: Action,
    other: SID,
)
    requires
        msg matches Message::Add(_),
        routed(pre, connected, msg, fresh, post, act),
    ensures
        act matches Action::Launch(s, name) && s == fresh && name@ == msg->Add_0@,
        post.dom() == pre.dom().insert(fresh),
        post[fresh].name == msg->Add_0@,
        post[fresh].topics == Set::<Seq<char>>::empty(),
        other != fresh && pre.dom().contains(other) ==> post[other] == pre[other],
{
    law_put_touches_only_its_service(pre, fresh, msg->Add_0@, other);
}

/// Registering a channel names its service; a service whose channel was
/// registered already starts afresh with no topics, any other keeps the
/// topics it has (a new one starts with none); every other service stays as
/// it was.
pub proof fn law_channel_step_is_local(
    pre: Map<SID, ServiceView>,
    connected: Set<SID>,
    msg: Message,
    fresh: SID,
    post: Map<SID, ServiceView>,
    act: Action,
    other: SID,
)
    requires
        msg matches Message::Channel(_, _),
        routed(pre, connected, msg, fresh, post, act),
    ensures
        act == Action::Connect(msg->Channel_0),
        post.dom() == pre.dom().insert(msg->Channel_0),
        post[msg->Channel_0].name == msg->Channel_1@,
        post[msg->Channel_0].topics == (if !connected.contains(msg->Channel_0) && pre.dom().contains(msg->Channel_0) {
            pre[msg->Channel_0].topics
        } else {
            Set::<Seq<char>>::empty()
        }),
        other != msg->Channel_0 && pre.dom().contains(other) ==> post[other] == pre[other],
{
    assert(post.dom() =~= pre.dom().insert(msg->Channel_0));
}

} // verus!
