//! The broker of the kernel: it keeps the registry of services and decides,
//! for each message it receives, how the registry changes and what has to be
//! sent or started.
use vstd::prelude::*;

use crate::kernel::{random_sid, Message};
use crate::registry::{
    audience, law_audience_is_the_listeners, law_named_means_same_name, law_put_touches_only_its_service,
    law_subscribe_adds_one_topic, law_unsubscribe_removes_one_topic, listens, named, put, revise, subscribe,
    unsubscribe, Registry, ServiceView,
};
use crate::SID;

verus! {

/// What the caller of the broker has to do after one message.
pub enum Action {
    /// Nothing.
    Idle,
    /// Keep the sending end that came with a channel registration as the
    /// channel of `sid`.
    Connect(SID),
    /// Give `sid` a channel whose traffic nobody reads.
    Discard(SID),
    /// Send the event `(topic, data)` to each of these services.
    Forward(Vec<SID>, String, String),
    /// Hand the shared frame to this service, if there is one.
    ShareWith(Option<SID>),
    /// Start the service called `name` under `sid`, on a fresh channel.
    Launch(SID, String),
}

/// The topic of displays.
pub open spec fn display_topic() -> Seq<char> {
    "/display"@
}

/// The name a service gets when it subscribes before it is registered.
pub open spec fn unnamed() -> Seq<char> {
    "no name yet"@
}

/// The messages a broker handles without failing: it can only unsubscribe a
/// registered service.
pub open spec fn accepts(m: Map<SID, ServiceView>, msg: Message) -> bool {
    match msg {
        Message::Unsubscribe(sid, _) => m.dom().contains(sid),
        _ => true,
    }
}

/// One step of the broker: from registry `pre`, the message `msg` leads to
/// registry `post` and action `act`, where `fresh` is the identifier a newly
/// started service gets.
pub open spec fn routed(
    pre: Map<SID, ServiceView>,
    msg: Message,
    fresh: SID,
    post: Map<SID, ServiceView>,
    act: Action,
) -> bool {
    match msg {
        Message::Share => {
            &&& post == pre
            &&& match act {
                Action::ShareWith(Some(sid)) => listens(pre, sid, display_topic()),
                Action::ShareWith(None) => forall|sid: SID| !listens(pre, sid, display_topic()),
                _ => false,
            }
        },
        Message::Channel(sid, name) => post == revise(pre, sid, name@) && act == Action::Connect(sid),
        Message::Subscribe(sid, topic) => {
            if pre.dom().contains(sid) {
                post == subscribe(pre, sid, topic@) && act == Action::Idle
            } else {
                post == subscribe(put(pre, sid, unnamed()), sid, topic@) && act == Action::Discard(sid)
            }
        },
        Message::Unsubscribe(sid, topic) => post == unsubscribe(pre, sid, topic@) && act == Action::Idle,
        Message::BrokerGoto(url) => {
            if url@.len() == 0 || named(pre, url@) {
                post == pre && act == Action::Idle
            } else {
                post == put(pre, fresh, url@) && act == Action::Launch(fresh, url)
            }
        },
        Message::Event(topic, data) => {
            &&& post == pre
            &&& act matches Action::Forward(targets, t, d)
            &&& t == topic
            &&& d == data
            &&& audience(pre, topic@, targets@)
        },
        Message::Add(name) => post == put(pre, fresh, name@) && act == Action::Launch(fresh, name),
    }
}

/// Once a service has subscribed to a topic, an event published on that
/// topic is forwarded to it.
pub proof fn law_subscribed_service_receives_events(
    pre: Map<SID, ServiceView>,
    sub: Message,
    fresh: SID,
    mid: Map<SID, ServiceView>,
    act: Action,
    event: Message,
    fresh2: SID,
    post: Map<SID, ServiceView>,
    act2: Action,
)
    requires
        sub matches Message::Subscribe(_, _),
        event matches Message::Event(_, _),
        event->Event_0@ == sub->Subscribe_1@,
        routed(pre, sub, fresh, mid, act),
        routed(mid, event, fresh2, post, act2),
    ensures
        act2 matches Action::Forward(targets, _, _) && targets@.contains(sub->Subscribe_0),
{
    let sid = sub->Subscribe_0;
    let topic = sub->Subscribe_1@;
    if !pre.dom().contains(sid) {
        assert(put(pre, sid, unnamed()).dom().contains(sid));
    }
    assert(listens(mid, sid, topic));
}

/// Once a service has unsubscribed from a topic, events published on that
/// topic are no longer forwarded to it.
pub proof fn law_unsubscribed_service_receives_nothing(
    pre: Map<SID, ServiceView>,
    unsub: Message,
    fresh: SID,
    mid: Map<SID, ServiceView>,
    act: Action,
    event: Message,
    fresh2: SID,
    post: Map<SID, ServiceView>,
    act2: Action,
)
    requires
        unsub matches Message::Unsubscribe(_, _),
        event matches Message::Event(_, _),
        event->Event_0@ == unsub->Unsubscribe_1@,
        accepts(pre, unsub),
        routed(pre, unsub, fresh, mid, act),
        routed(mid, event, fresh2, post, act2),
    ensures
        act2 matches Action::Forward(targets, _, _) && !targets@.contains(unsub->Unsubscribe_0),
{
    assert(!listens(mid, unsub->Unsubscribe_0, unsub->Unsubscribe_1@));
}

/// Asking twice for the same URL starts its app once: the second request
/// finds the app loaded, starts nothing and leaves the registry unchanged.
pub proof fn law_goto_loads_once(
    pre: Map<SID, ServiceView>,
    first: Message,
    fresh: SID,
    mid: Map<SID, ServiceView>,
    act: Action,
    second: Message,
    fresh2: SID,
    post: Map<SID, ServiceView>,
    act2: Action,
)
    requires
        first matches Message::BrokerGoto(_),
        second matches Message::BrokerGoto(_),
        second->BrokerGoto_0@ == first->BrokerGoto_0@,
        routed(pre, first, fresh, mid, act),
        routed(mid, second, fresh2, post, act2),
    ensures
        act2 == Action::Idle,
        post == mid,
{
    let url = first->BrokerGoto_0@;
    if url.len() != 0 && !named(pre, url) {
        assert(mid.dom().contains(fresh) && mid[fresh].name == url);
    }
}

/// Forwarding an event and handing out a shared frame leave the registry as
/// it was.
pub proof fn law_routing_keeps_registry(
    pre: Map<SID, ServiceView>,
    msg: Message,
    fresh: SID,
    post: Map<SID, ServiceView>,
    act: Action,
)
    requires
        msg matches Message::Event(_, _) || msg matches Message::Share,
        routed(pre, msg, fresh, post, act),
    ensures
        post == pre,
{
}

/// Unsubscribing a registered service from a topic it had just subscribed
/// to, and had not listened to before, leaves the registry as it was.
pub proof fn law_unsubscribe_undoes_subscribe_step(
    pre: Map<SID, ServiceView>,
    sub: Message,
    unsub: Message,
    fresh: SID,
    mid: Map<SID, ServiceView>,
    act: Action,
    post: Map<SID, ServiceView>,
    act2: Action,
)
    requires
        sub matches Message::Subscribe(_, _),
        unsub matches Message::Unsubscribe(_, _),
        unsub->Unsubscribe_0 == sub->Subscribe_0,
        unsub->Unsubscribe_1@ == sub->Subscribe_1@,
        pre.dom().contains(sub->Subscribe_0),
        !pre[sub->Subscribe_0].topics.contains(sub->Subscribe_1@),
        routed(pre, sub, fresh, mid, act),
        routed(mid, unsub, fresh, post, act2),
    ensures
        post == pre,
{
    crate::registry::law_unsubscribe_undoes_subscribe(pre, sub->Subscribe_0, sub->Subscribe_1@);
}

/// Subscribing a second time to the same topic changes nothing: a service
/// gets each event on the topic once, however often it subscribed.
pub proof fn law_subscribe_twice_is_once(
    pre: Map<SID, ServiceView>,
    sub: Message,
    again: Message,
    fresh: SID,
    mid: Map<SID, ServiceView>,
    act: Action,
    post: Map<SID, ServiceView>,
    act2: Action,
)
    requires
        sub matches Message::Subscribe(_, _),
        again matches Message::Subscribe(_, _),
        again->Subscribe_0 == sub->Subscribe_0,
        again->Subscribe_1@ == sub->Subscribe_1@,
        routed(pre, sub, fresh, mid, act),
        routed(mid, again, fresh, post, act2),
    ensures
        post == mid,
        act2 == Action::Idle,
{
    let sid = sub->Subscribe_0;
    if !pre.dom().contains(sid) {
        assert(put(pre, sid, unnamed()).dom().contains(sid));
    }
    assert(mid.dom().contains(sid));
    assert(mid[sid].topics.insert(sub->Subscribe_1@) =~= mid[sid].topics);
    assert(post =~= mid);
}

/// A subscription step adds the topic to that service (entering it if it
/// was unknown), keeps its name and its other topics, and leaves every other
/// service as it was.
pub proof fn law_subscribe_step_is_local(
    pre: Map<SID, ServiceView>,
    msg: Message,
    fresh: SID,
    post: Map<SID, ServiceView>,
    act: Action,
    other: SID,
    other_topic: Seq<char>,
)
    requires
        msg matches Message::Subscribe(_, _),
        routed(pre, msg, fresh, post, act),
    ensures
        post.dom() == pre.dom().insert(msg->Subscribe_0),
        post[msg->Subscribe_0].topics.contains(msg->Subscribe_1@),
        other_topic != msg->Subscribe_1@ ==> (post[msg->Subscribe_0].topics.contains(other_topic) == (pre.dom().contains(
            msg->Subscribe_0,
        ) && pre[msg->Subscribe_0].topics.contains(other_topic))),
        pre.dom().contains(msg->Subscribe_0) ==> post[msg->Subscribe_0].name == pre[msg->Subscribe_0].name,
        other != msg->Subscribe_0 && pre.dom().contains(other) ==> post[other] == pre[other],
{
    let sid = msg->Subscribe_0;
    let topic = msg->Subscribe_1@;
    if pre.dom().contains(sid) {
        law_subscribe_adds_one_topic(pre, sid, topic, other, other_topic);
        assert(pre.dom().insert(sid) =~= pre.dom());
    } else {
        let entered = put(pre, sid, unnamed());
        law_put_touches_only_its_service(pre, sid, unnamed(), other);
        law_subscribe_adds_one_topic(entered, sid, topic, other, other_topic);
    }
}

/// An unsubscription step removes the topic from that service, keeps its
/// name and its other topics, and leaves every other service as it was.
pub proof fn law_unsubscribe_step_is_local(
    pre: Map<SID, ServiceView>,
    msg: Message,
    fresh: SID,
    post: Map<SID, ServiceView>,
    act: Action,
    other: SID,
    other_topic: Seq<char>,
)
    requires
        msg matches Message::Unsubscribe(_, _),
        pre.dom().contains(msg->Unsubscribe_0),
        routed(pre, msg, fresh, post, act),
    ensures
        post.dom() == pre.dom(),
        act == Action::Idle,
        !post[msg->Unsubscribe_0].topics.contains(msg->Unsubscribe_1@),
        other_topic != msg->Unsubscribe_1@ ==> (post[msg->Unsubscribe_0].topics.contains(other_topic)
            == pre[msg->Unsubscribe_0].topics.contains(other_topic)),
        post[msg->Unsubscribe_0].name == pre[msg->Unsubscribe_0].name,
        other != msg->Unsubscribe_0 && pre.dom().contains(other) ==> post[other] == pre[other],
{
    law_unsubscribe_removes_one_topic(pre, msg->Unsubscribe_0, msg->Unsubscribe_1@, other, other_topic);
}

/// An event goes, unchanged, to exactly the registered services that have
/// its topic among their topics, each once, and the registry stays as it
/// was.
pub proof fn law_event_reaches_listeners(
    pre: Map<SID, ServiceView>,
    msg: Message,
    fresh: SID,
    post: Map<SID, ServiceView>,
    act: Action,
    sid: SID,
)
    requires
        msg matches Message::Event(_, _),
        routed(pre, msg, fresh, post, act),
    ensures
        post == pre,
        act matches Action::Forward(targets, topic, data) && topic@ == msg->Event_0@ && data@ == msg->Event_1@
            && (targets@.contains(sid) <==> (pre.dom().contains(sid) && pre[sid].topics.contains(msg->Event_0@)))
            && targets@.no_duplicates(),
{
    if let Action::Forward(targets, _, _) = act {
        law_audience_is_the_listeners(pre, msg->Event_0@, targets@, sid);
    }
}

/// A service added at runtime is registered under the identifier drawn for
/// it, with its own name and no topics, and is started; every other service
/// stays as it was.
pub proof fn law_add_launches_only_the_new_service(
    pre: Map<SID, ServiceView>,
    msg: Message,
    fresh: SID,
    post: Map<SID, ServiceView>,
    act: Action,
    other: SID,
)
    requires
        msg matches Message::Add(_),
        routed(pre, msg, fresh, post, act),
    ensures
        act matches Action::Launch(s, name) && s == fresh && name@ == msg->Add_0@,
        post.dom() == pre.dom().insert(fresh),
        post[fresh].name == msg->Add_0@,
        post[fresh].topics == Set::<Seq<char>>::empty(),
        other != fresh && pre.dom().contains(other) ==> post[other] == pre[other],
{
    law_put_touches_only_its_service(pre, fresh, msg->Add_0@, other);
}

/// A URL is loaded exactly when it is not empty and no registered service
/// has that very name: it is then registered under the identifier drawn for
/// it, with no topics, and started, and every other service stays as it
/// was; otherwise nothing is started and the registry stays as it was.
pub proof fn law_goto_loads_unknown_urls(
    pre: Map<SID, ServiceView>,
    msg: Message,
    fresh: SID,
    post: Map<SID, ServiceView>,
    act: Action,
    other: SID,
)
    requires
        msg matches Message::BrokerGoto(_),
        routed(pre, msg, fresh, post, act),
    ensures
        (msg->BrokerGoto_0@.len() > 0 && forall|s: SID| pre.dom().contains(s) ==> #[trigger] pre[s].name != msg->BrokerGoto_0@)
            ==> {
            &&& act matches Action::Launch(s, name) && s == fresh && name@ == msg->BrokerGoto_0@
            &&& post.dom() == pre.dom().insert(fresh)
            &&& post[fresh].name == msg->BrokerGoto_0@
            &&& post[fresh].topics == Set::<Seq<char>>::empty()
            &&& (other != fresh && pre.dom().contains(other) ==> post[other] == pre[other])
        },
        (msg->BrokerGoto_0@.len() == 0 || exists|s: SID| pre.dom().contains(s) && #[trigger] pre[s].name == msg->BrokerGoto_0@)
            ==> act == Action::Idle && post == pre,
{
    let url = msg->BrokerGoto_0@;
    law_put_touches_only_its_service(pre, fresh, url, other);
    if exists|s: SID| pre.dom().contains(s) && #[trigger] pre[s].name == url {
        let s = choose|s: SID| pre.dom().contains(s) && #[trigger] pre[s].name == url;
        law_named_means_same_name(pre, url, s);
    }
    if named(pre, url) {
        let s = choose|s: SID| pre.dom().contains(s) && #[trigger] pre[s].name == url;
        law_named_means_same_name(pre, url, s);
    }
}

/// Registering a channel names its service and keeps the topics of a
/// service known already (a new one starts with none); every other service
/// stays as it was.
pub proof fn law_channel_step_is_local(
    pre: Map<SID, ServiceView>,
    msg: Message,
    fresh: SID,
    post: Map<SID, ServiceView>,
    act: Action,
    other: SID,
)
    requires
        msg matches Message::Channel(_, _),
        routed(pre, msg, fresh, post, act),
    ensures
        act == Action::Connect(msg->Channel_0),
        post.dom() == pre.dom().insert(msg->Channel_0),
        post[msg->Channel_0].name == msg->Channel_1@,
        post[msg->Channel_0].topics == (if pre.dom().contains(msg->Channel_0) {
            pre[msg->Channel_0].topics
        } else {
            Set::<Seq<char>>::empty()
        }),
        other != msg->Channel_0 && pre.dom().contains(other) ==> post[other] == pre[other],
{
    assert(post.dom() =~= pre.dom().insert(msg->Channel_0));
}

/// The broker of the kernel.
pub struct Broker {
    registry: Registry,
}

impl View for Broker {
    type V = Map<SID, ServiceView>;

    closed spec fn view(&self) -> Map<SID, ServiceView> {
        self.registry@
    }
}

impl Broker {
    /// A broker that knows no service yet.
    pub fn new() -> (b: Broker)
        ensures
            b@ == Map::<SID, ServiceView>::empty(),
    {
        Broker { registry: Registry::new() }
    }

    /// The registry the broker keeps.
    pub fn registry(&self) -> (r: &Registry)
        ensures
            r@ == self@,
    {
        &self.registry
    }

    /// Handles one message; a service started by it gets the identifier
    /// `fresh`.
    pub fn step(&mut self, msg: Message, fresh: SID) -> (act: Action)
        requires
            accepts(old(self)@, msg),
        ensures
            routed(old(self)@, msg, fresh, final(self)@, act),
    {
        match msg {
            Message::Share => {
                let topic = "/display".to_owned();
                Action::ShareWith(self.registry.first_subscriber(&topic))
            },
            Message::Channel(sid, name) => {
                self.registry.revise(sid, name.as_str());
                Action::Connect(sid)
            },
            Message::Subscribe(sid, topic) => {
                let known = self.registry.contains(sid);
                if !known {
                    self.registry.put(sid, "no name yet");
                }
                self.registry.subscribe(sid, topic);
                if known {
                    Action::Idle
                } else {
                    Action::Discard(sid)
                }
            },
            Message::Unsubscribe(sid, topic) => {
                self.registry.unsubscribe(sid, &topic);
                Action::Idle
            },
            Message::BrokerGoto(url) => {
                if url.as_str().is_empty() || self.registry.has_name(&url) {
                    Action::Idle
                } else {
                    self.registry.put(fresh, url.as_str());
                    Action::Launch(fresh, url)
                }
            },
            Message::Event(topic, data) => {
                let targets = self.registry.subscribers(&topic);
                Action::Forward(targets, topic, data)
            },
            Message::Add(name) => {
                self.registry.put(fresh, name.as_str());
                Action::Launch(fresh, name)
            },
        }
    }

    /// Handles one message; a service started by it gets a random
    /// identifier that no registered service has.
    pub fn handle(&mut self, msg: Message) -> (act: Action)
        requires
            accepts(old(self)@, msg),
        ensures
            exists|fresh: SID| !old(self)@.dom().contains(fresh) && #[trigger] routed(old(self)@, msg, fresh, final(self)@, act),
    {
        let fresh = match &msg {
            Message::Add(_) | Message::BrokerGoto(_) => self.registry.fresh_id(random_sid()),
            _ => self.registry.fresh_id(0),
        };
        let act = self.step(msg, fresh);
        assert(routed(old(self)@, msg, fresh, self@, act));
        act
    }
}

} // verus!
