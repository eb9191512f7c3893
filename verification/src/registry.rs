//! The registry a broker keeps: which services exist, under which
//! identifier, with which name, and which topics each one listens to.
use std::collections::HashMap;
use vstd::prelude::*;
use vstd::std_specs::iter::IteratorSpec;

use crate::SID;

verus! {

broadcast use vstd::std_specs::hash::group_hash_axioms;

/// What is known of one registered service: its name and the set of topics
/// it listens to.
pub struct ServiceView {
    pub name: Seq<char>,
    pub topics: Set<Seq<char>>,
}

/// One registered service as the registry holds it.
pub struct ServiceWrapper {
    pub sid: SID,
    pub name: String,
    pub subscriptions: Vec<String>,
}

/// The topics named in a list of subscriptions.
pub open spec fn topic_set(subs: Seq<String>) -> Set<Seq<char>> {
    Set::new(|t: Seq<char>| exists|i: int| 0 <= i < subs.len() && subs[i]@ == t)
}

/// No topic is named twice in a list of subscriptions.
pub open spec fn distinct_topics(subs: Seq<String>) -> bool {
    forall|i: int, j: int| 0 <= i < j < subs.len() ==> subs[i]@ != subs[j]@
}

impl View for ServiceWrapper {
    type V = ServiceView;

    open spec fn view(&self) -> ServiceView {
        ServiceView { name: self.name@, topics: topic_set(self.subscriptions@) }
    }
}

impl ServiceWrapper {
    /// A service called `name` under `sid` that listens to no topic yet.
    pub fn new(name: &str, sid: SID) -> (w: ServiceWrapper)
        ensures
            w.sid == sid,
            w.name@ == name@,
            w.subscriptions@.len() == 0,
            w@ == (ServiceView { name: name@, topics: Set::empty() }),
    {
        let w = ServiceWrapper { sid, name: name.to_owned(), subscriptions: Vec::new() };
        assert(topic_set(w.subscriptions@) =~= Set::empty());
        w
    }
}

/// A service listens to exactly the topics named in its subscriptions.
pub proof fn law_topics_are_the_subscriptions(w: ServiceWrapper, topic: Seq<char>)
    ensures
        w@.topics.contains(topic) <==> exists|i: int| 0 <= i < w.subscriptions@.len() && w.subscriptions@[i]@ == topic,
        w@.name == w.name@,
{
}

/// The registry state after a service is (re)registered under `sid` with a
/// fresh wrapper: whatever was kept under `sid` before is replaced.
pub open spec fn put(m: Map<SID, ServiceView>, sid: SID, name: Seq<char>) -> Map<SID, ServiceView> {
    m.insert(sid, ServiceView { name, topics: Set::empty() })
}

/// The registry state after the entry of `sid` is revised to the name
/// `name`: a known service keeps its topics, an unknown one starts with none.
pub open spec fn revise(m: Map<SID, ServiceView>, sid: SID, name: Seq<char>) -> Map<SID, ServiceView> {
    m.insert(
        sid,
        ServiceView {
            name,
            topics: if m.dom().contains(sid) { m[sid].topics } else { Set::empty() },
        },
    )
}

/// The registry state after the service `sid` starts listening to `topic`.
pub open spec fn subscribe(m: Map<SID, ServiceView>, sid: SID, topic: Seq<char>) -> Map<SID, ServiceView> {
    m.insert(sid, ServiceView { name: m[sid].name, topics: m[sid].topics.insert(topic) })
}

/// The registry state after the service `sid` stops listening to `topic`.
pub open spec fn unsubscribe(m: Map<SID, ServiceView>, sid: SID, topic: Seq<char>) -> Map<SID, ServiceView> {
    m.insert(sid, ServiceView { name: m[sid].name, topics: m[sid].topics.remove(topic) })
}

/// The service `sid` is registered and listens to `topic`.
pub open spec fn listens(m: Map<SID, ServiceView>, sid: SID, topic: Seq<char>) -> bool {
    m.dom().contains(sid) && m[sid].topics.contains(topic)
}

/// Some registered service is called `name`.
pub open spec fn named(m: Map<SID, ServiceView>, name: Seq<char>) -> bool {
    exists|sid: SID| m.dom().contains(sid) && #[trigger] m[sid].name == name
}

/// `targets` names each service that listens to `topic` exactly once, and
/// nothing else.
pub open spec fn audience(m: Map<SID, ServiceView>, topic: Seq<char>, targets: Seq<SID>) -> bool {
    &&& targets.no_duplicates()
    &&& forall|sid: SID| targets.contains(sid) <==> listens(m, sid, topic)
}

/// A service that subscribes to a topic is among those the topic is routed to.
pub proof fn law_subscribe_routes(m: Map<SID, ServiceView>, sid: SID, topic: Seq<char>)
    requires
        m.dom().contains(sid),
    ensures
        listens(subscribe(m, sid, topic), sid, topic),
{
}

/// A service that unsubscribes from a topic is no longer among those the
/// topic is routed to.
pub proof fn law_unsubscribe_silences(m: Map<SID, ServiceView>, sid: SID, topic: Seq<char>)
    requires
        m.dom().contains(sid),
    ensures
        !listens(unsubscribe(m, sid, topic), sid, topic),
{
}

/// Subscribing or unsubscribing one service to one topic changes nothing
/// else: the same services stay registered under the same names, and every
/// other service and topic is routed as before.
pub proof fn law_subscription_is_local(
    m: Map<SID, ServiceView>,
    sid: SID,
    topic: Seq<char>,
    other: SID,
    other_topic: Seq<char>,
)
    requires
        m.dom().contains(sid),
        other != sid || other_topic != topic,
    ensures
        subscribe(m, sid, topic).dom() == m.dom(),
        unsubscribe(m, sid, topic).dom() == m.dom(),
        m.dom().contains(other) ==> subscribe(m, sid, topic)[other].name == m[other].name,
        m.dom().contains(other) ==> unsubscribe(m, sid, topic)[other].name == m[other].name,
        listens(subscribe(m, sid, topic), other, other_topic) == listens(m, other, other_topic),
        listens(unsubscribe(m, sid, topic), other, other_topic) == listens(m, other, other_topic),
{
    assert(subscribe(m, sid, topic).dom() =~= m.dom());
    assert(unsubscribe(m, sid, topic).dom() =~= m.dom());
}

/// Unsubscribing undoes a subscription to a topic the service did not
/// listen to before.
pub proof fn law_unsubscribe_undoes_subscribe(m: Map<SID, ServiceView>, sid: SID, topic: Seq<char>)
    requires
        m.dom().contains(sid),
        !m[sid].topics.contains(topic),
    ensures
        unsubscribe(subscribe(m, sid, topic), sid, topic) == m,
{
    let after = unsubscribe(subscribe(m, sid, topic), sid, topic);
    assert(m[sid].topics.insert(topic).remove(topic) =~= m[sid].topics);
    assert(after[sid] == m[sid]);
    assert(after =~= m);
}

/// Subscribing twice to a topic is subscribing once.
pub proof fn law_subscribe_idempotent(m: Map<SID, ServiceView>, sid: SID, topic: Seq<char>)
    requires
        m.dom().contains(sid),
    ensures
        subscribe(subscribe(m, sid, topic), sid, topic) == subscribe(m, sid, topic),
{
    let once = subscribe(m, sid, topic);
    assert(once[sid].topics.insert(topic) =~= once[sid].topics);
    assert(subscribe(once, sid, topic) =~= once);
}

/// Revising the channel of a registered service keeps the topics it listens
/// to, and leaves every other service as it was.
pub proof fn law_revise_keeps_topics(m: Map<SID, ServiceView>, sid: SID, name: Seq<char>, other: SID)
    requires
        m.dom().contains(sid),
    ensures
        revise(m, sid, name)[sid].topics == m[sid].topics,
        revise(m, sid, name)[sid].name == name,
        revise(m, sid, name).dom() == m.dom(),
        other != sid && m.dom().contains(other) ==> revise(m, sid, name)[other] == m[other],
{
    assert(revise(m, sid, name).dom() =~= m.dom());
}


proof fn lemma_topics_push(subs: Seq<String>, t: String)
    requires
        distinct_topics(subs),
        !topic_set(subs).contains(t@),
    ensures
        distinct_topics(subs.push(t)),
        topic_set(subs.push(t)) == topic_set(subs).insert(t@),
{
    let n = subs.push(t);
    assert forall|i: int, j: int| 0 <= i < j < n.len() implies n[i]@ != n[j]@ by {
        if j == subs.len() {
            assert(subs[i]@ == n[i]@);
        } else {
            assert(n[i] == subs[i] && n[j] == subs[j]);
        }
    }
    assert forall|x: Seq<char>| topic_set(n).contains(x) <==> topic_set(subs).insert(t@).contains(x) by {
        if topic_set(n).contains(x) {
            let k = choose|k: int| 0 <= k < n.len() && n[k]@ == x;
            if k < subs.len() {
                assert(subs[k]@ == x);
            }
        }
        if topic_set(subs).contains(x) {
            let k = choose|k: int| 0 <= k < subs.len() && subs[k]@ == x;
            assert(n[k]@ == x);
        }
        if x == t@ {
            assert(n[subs.len() as int]@ == x);
        }
    }
    assert(topic_set(n) =~= topic_set(subs).insert(t@));
}

proof fn lemma_topics_remove(subs: Seq<String>, i: int)
    requires
        distinct_topics(subs),
        0 <= i < subs.len(),
    ensures
        distinct_topics(subs.remove(i)),
        topic_set(subs.remove(i)) == topic_set(subs).remove(subs[i]@),
{
    let n = subs.remove(i);
    assert forall|a: int| 0 <= a < n.len() implies #[trigger] n[a] == subs[if a < i { a } else { a + 1 }] by {}
    assert forall|a: int, b: int| 0 <= a < b < n.len() implies n[a]@ != n[b]@ by {
        let a2 = if a < i { a } else { a + 1 };
        let b2 = if b < i { b } else { b + 1 };
        assert(n[a] == subs[a2] && n[b] == subs[b2]);
    }
    assert forall|x: Seq<char>| topic_set(n).contains(x) <==> topic_set(subs).remove(subs[i]@).contains(x) by {
        if topic_set(n).contains(x) {
            let k = choose|k: int| 0 <= k < n.len() && n[k]@ == x;
            let k2 = if k < i { k } else { k + 1 };
            assert(n[k] == subs[k2]);
            assert(subs[k2]@ == x);
        }
        if topic_set(subs).remove(subs[i]@).contains(x) {
            let k = choose|k: int| 0 <= k < subs.len() && subs[k]@ == x;
            assert(k != i);
            let k1 = if k < i { k } else { k - 1 };
            assert(n[k1] == subs[k]);
        }
    }
    assert(topic_set(n) =~= topic_set(subs).remove(subs[i]@));
}

/// Index of `topic` in a list of subscriptions.
fn topic_index(subs: &Vec<String>, topic: &String) -> (r: Option<usize>)
    ensures
        r is Some <==> topic_set(subs@).contains(topic@),
        match r {
            Some(i) => i < subs.len() && subs@[i as int]@ == topic@,
            None => !topic_set(subs@).contains(topic@),
        },
{
    let mut i: usize = 0;
    while i < subs.len()
        invariant
            i <= subs.len(),
            forall|j: int| 0 <= j < i ==> subs@[j]@ != topic@,
        decreases subs.len() - i,
    {
        if subs[i] == *topic {
            assert(topic_set(subs@).contains(topic@));
            return Some(i);
        }
        i += 1;
    }
    None
}


/// Registering a service under `sid` registers exactly that identifier, with
/// the given name and no topics, and leaves every other service exactly as
/// it was.
pub proof fn law_put_touches_only_its_service(m: Map<SID, ServiceView>, sid: SID, name: Seq<char>, other: SID)
    ensures
        put(m, sid, name).dom() == m.dom().insert(sid),
        put(m, sid, name)[sid].name == name,
        put(m, sid, name)[sid].topics == Set::<Seq<char>>::empty(),
        other != sid && m.dom().contains(other) ==> put(m, sid, name)[other] == m[other],
{
    assert(put(m, sid, name).dom() =~= m.dom().insert(sid));
}

/// Subscribing `sid` to `topic` adds exactly that topic to that service:
/// its name and its other topics stay, and every other service stays as it
/// was.
pub proof fn law_subscribe_adds_one_topic(
    m: Map<SID, ServiceView>,
    sid: SID,
    topic: Seq<char>,
    other: SID,
    other_topic: Seq<char>,
)
    requires
        m.dom().contains(sid),
    ensures
        subscribe(m, sid, topic).dom() == m.dom(),
        subscribe(m, sid, topic)[sid].name == m[sid].name,
        subscribe(m, sid, topic)[sid].topics.contains(topic),
        other_topic != topic ==> (subscribe(m, sid, topic)[sid].topics.contains(other_topic) == m[sid].topics.contains(
            other_topic,
        )),
        other != sid && m.dom().contains(other) ==> subscribe(m, sid, topic)[other] == m[other],
{
    assert(subscribe(m, sid, topic).dom() =~= m.dom());
}

/// Unsubscribing `sid` from `topic` removes exactly that topic from that
/// service: its name and its other topics stay, and every other service
/// stays as it was.
pub proof fn law_unsubscribe_removes_one_topic(
    m: Map<SID, ServiceView>,
    sid: SID,
    topic: Seq<char>,
    other: SID,
    other_topic: Seq<char>,
)
    requires
        m.dom().contains(sid),
    ensures
        unsubscribe(m, sid, topic).dom() == m.dom(),
        unsubscribe(m, sid, topic)[sid].name == m[sid].name,
        !unsubscribe(m, sid, topic)[sid].topics.contains(topic),
        other_topic != topic ==> (unsubscribe(m, sid, topic)[sid].topics.contains(other_topic)
            == m[sid].topics.contains(other_topic)),
        other != sid && m.dom().contains(other) ==> unsubscribe(m, sid, topic)[other] == m[other],
{
    assert(unsubscribe(m, sid, topic).dom() =~= m.dom());
}

/// A name is taken exactly when some registered service has that very name.
pub proof fn law_named_means_same_name(m: Map<SID, ServiceView>, name: Seq<char>, sid: SID)
    ensures
        m.dom().contains(sid) && m[sid].name == name ==> named(m, name),
        named(m, name) ==> exists|s: SID| m.dom().contains(s) && m[s].name == name,
{
}

/// Routing a topic reaches a service exactly when the service is registered
/// and has the topic among its topics, and reaches it once.
pub proof fn law_audience_is_the_listeners(m: Map<SID, ServiceView>, topic: Seq<char>, targets: Seq<SID>, sid: SID)
    requires
        audience(m, topic, targets),
    ensures
        targets.contains(sid) <==> (m.dom().contains(sid) && m[sid].topics.contains(topic)),
        forall|i: int, j: int| 0 <= i < j < targets.len() ==> targets[i] != targets[j],
{
}

/// Every service is kept under its own identifier and names no topic twice.
pub open spec fn well_kept(m: Map<SID, ServiceWrapper>) -> bool {
    forall|k: SID| #[trigger] m.contains_key(k) ==> m[k].sid == k && distinct_topics(m[k].subscriptions@)
}

/// The map from identifier to service that the kept wrappers stand for.
pub open spec fn map_of(m: Map<SID, ServiceWrapper>) -> Map<SID, ServiceView> {
    m.map_values(|w: ServiceWrapper| w@)
}

proof fn lemma_view(m: Map<SID, ServiceWrapper>)
    ensures
        map_of(m).dom() == m.dom(),
        forall|k: SID| #[trigger] m.contains_key(k) ==> map_of(m)[k] == m[k]@,
{
    assert(map_of(m).dom() =~= m.dom());
}

proof fn lemma_insert(m: Map<SID, ServiceWrapper>, w: ServiceWrapper)
    requires
        well_kept(m),
        distinct_topics(w.subscriptions@),
    ensures
        well_kept(m.insert(w.sid, w)),
        map_of(m.insert(w.sid, w)) == map_of(m).insert(w.sid, w@),
{
    let n = m.insert(w.sid, w);
    assert forall|k: SID| #[trigger] n.contains_key(k) implies n[k].sid == k && distinct_topics(n[k].subscriptions@) by {
        if k != w.sid {
            assert(m.contains_key(k));
        }
    }
    lemma_view(m);
    lemma_view(n);
    assert(map_of(n) =~= map_of(m).insert(w.sid, w@));
}

/// The identifiers `base`, `base + 1`, ..., below `base + count`.
spec fn id_range(base: u64, count: nat) -> Set<SID> {
    Set::new(|k: SID| base <= k < base + count)
}

proof fn lemma_id_range(base: u64, count: nat)
    requires
        base + count <= u64::MAX + 1,
    ensures
        id_range(base, count).finite(),
        id_range(base, count).len() == count,
    decreases count,
{
    if count == 0 {
        assert(id_range(base, count) =~= Set::<SID>::empty());
    } else {
        let last = (base + count - 1) as u64;
        lemma_id_range(base, (count - 1) as nat);
        assert(id_range(base, count) =~= id_range(base, (count - 1) as nat).insert(last));
        assert(!id_range(base, (count - 1) as nat).contains(last));
    }
}

/// A finite set that holds `count` consecutive identifiers has at least
/// `count` elements.
proof fn lemma_pigeonhole(ids: Set<SID>, base: u64, count: nat)
    requires
        ids.finite(),
        base + count <= u64::MAX + 1,
        forall|k: SID| base <= k < base + count ==> ids.contains(k),
    ensures
        count <= ids.len(),
{
    lemma_id_range(base, count);
    vstd::set_lib::lemma_len_subset(id_range(base, count), ids);
}

/// The services known to a broker, each under its own identifier.
pub struct Registry {
    services: HashMap<SID, ServiceWrapper>,
}

impl View for Registry {
    type V = Map<SID, ServiceView>;

    closed spec fn view(&self) -> Map<SID, ServiceView> {
        map_of(self.services@)
    }
}

impl Registry {
    #[verifier::type_invariant]
    spec fn inv(self) -> bool {
        well_kept(self.services@)
    }

    /// A registry that knows no service.
    pub fn new() -> (r: Registry)
        ensures
            r@ == Map::<SID, ServiceView>::empty(),
    {
        let r = Registry { services: HashMap::new() };
        assert(map_of(r.services@) =~= Map::<SID, ServiceView>::empty());
        r
    }

    /// Moves the services out, leaving an empty registry behind.
    fn take(&mut self) -> (m: HashMap<SID, ServiceWrapper>)
        ensures
            well_kept(m@),
            map_of(m@) == old(self)@,
    {
        proof {
            use_type_invariant(&*self);
        }
        let mut m: HashMap<SID, ServiceWrapper> = HashMap::new();
        std::mem::swap(&mut m, &mut self.services);
        m
    }

    /// Whether a service is registered under `sid`.
    pub fn contains(&self, sid: SID) -> (r: bool)
        ensures
            r == self@.dom().contains(sid),
    {
        proof {
            lemma_view(self.services@);
        }
        self.services.contains_key(&sid)
    }

    /// Registers a fresh service called `name` under `sid`; whatever was
    /// registered under `sid` before is dropped together with its topics.
    pub fn put(&mut self, sid: SID, name: &str)
        ensures
            final(self)@ == put(old(self)@, sid, name@),
    {
        let mut m = self.take();
        let fresh = ServiceWrapper::new(name, sid);
        proof {
            lemma_insert(m@, fresh);
        }
        m.insert(sid, fresh);
        self.services = m;
    }

    /// Records the name `name` for `sid`: a service already registered there
    /// keeps its topics, otherwise a fresh one is registered.
    pub fn revise(&mut self, sid: SID, name: &str)
        ensures
            final(self)@ == revise(old(self)@, sid, name@),
    {
        let mut m = self.take();
        let ghost before = m@;
        proof {
            lemma_view(before);
        }
        let revised = match m.remove(&sid) {
            Some(current) => ServiceWrapper { sid, name: name.to_owned(), subscriptions: current.subscriptions },
            None => ServiceWrapper::new(name, sid),
        };
        proof {
            assert(m@.insert(sid, revised) =~= before.insert(sid, revised));
            lemma_insert(before, revised);
        }
        m.insert(sid, revised);
        self.services = m;
    }

    /// The service `sid` starts listening to `topic`; listening twice to a
    /// topic is listening once.
    pub fn subscribe(&mut self, sid: SID, topic: String)
        requires
            old(self)@.dom().contains(sid),
        ensures
            final(self)@ == subscribe(old(self)@, sid, topic@),
    {
        let mut m = self.take();
        let ghost before = m@;
        proof {
            lemma_view(before);
        }
        let current = m.remove(&sid).unwrap();
        let mut subs = current.subscriptions;
        match topic_index(&subs, &topic) {
            Some(_) => {
                proof {
                    assert(topic_set(subs@).insert(topic@) =~= topic_set(subs@));
                }
            },
            None => {
                proof {
                    lemma_topics_push(subs@, topic);
                }
                subs.push(topic);
            },
        }
        let revised = ServiceWrapper { sid, name: current.name, subscriptions: subs };
        proof {
            assert(m@.insert(sid, revised) =~= before.insert(sid, revised));
            lemma_insert(before, revised);
        }
        m.insert(sid, revised);
        self.services = m;
    }

    /// The service `sid` stops listening to `topic`.
    pub fn unsubscribe(&mut self, sid: SID, topic: &String)
        requires
            old(self)@.dom().contains(sid),
        ensures
            final(self)@ == unsubscribe(old(self)@, sid, topic@),
    {
        let mut m = self.take();
        let ghost before = m@;
        proof {
            lemma_view(before);
        }
        let current = m.remove(&sid).unwrap();
        let mut subs = current.subscriptions;
        match topic_index(&subs, topic) {
            Some(k) => {
                proof {
                    lemma_topics_remove(subs@, k as int);
                }
                subs.remove(k);
            },
            None => {
                proof {
                    assert(topic_set(subs@).remove(topic@) =~= topic_set(subs@));
                }
            },
        }
        let revised = ServiceWrapper { sid, name: current.name, subscriptions: subs };
        proof {
            assert(m@.insert(sid, revised) =~= before.insert(sid, revised));
            lemma_insert(before, revised);
        }
        m.insert(sid, revised);
        self.services = m;
    }

    /// Every service that listens to `topic`, each once.
    pub fn subscribers(&self, topic: &String) -> (r: Vec<SID>)
        ensures
            audience(self@, topic@, r@),
    {
        proof {
            use_type_invariant(self);
            lemma_view(self.services@);
        }
        let ghost m = self.services@;
        let ghost v = vstd::std_specs::hash::spec_hash_map_iter(&self.services).remaining();
        let mut r: Vec<SID> = Vec::new();
        for (k, w) in it: self.services.iter()
            invariant
                it.seq() == v,
                v.no_duplicates(),
                m == self.services@,
                well_kept(m),
                r@.no_duplicates(),
                forall|sid: SID| r@.contains(sid) <==> exists|j: int|
                    0 <= j < it.index() && *(#[trigger] v[j]).0 == sid && m[sid]@.topics.contains(topic@),
        {
            let ghost i = it.index();
            let ghost before = r@;
            proof {
                assert(m.contains_key(*v[i].0) && m[*v[i].0] == *v[i].1);
            }
            let hit = topic_index(&w.subscriptions, topic).is_some();
            proof {
                assert(*k == *v[i].0);
                assert(*w == *v[i].1);
                assert(hit == m[*k]@.topics.contains(topic@));
            }
            if hit {
                proof {
                    if r@.contains(*k) {
                        let j = choose|j: int| 0 <= j < i && *(#[trigger] v[j]).0 == *k && m[*k]@.topics.contains(topic@);
                        assert(m.contains_key(*v[j].0) && m[*v[j].0] == *v[j].1);
                        assert(v[j] == v[i]);
                    }
                }
                r.push(*k);
            }
            proof {
                assert forall|sid: SID| r@.contains(sid) <==> exists|j: int|
                    0 <= j < i + 1 && *(#[trigger] v[j]).0 == sid && m[sid]@.topics.contains(topic@) by {
                    if r@.contains(sid) && !before.contains(sid) {
                        assert(sid == *k);
                        assert(0 <= i < i + 1 && *v[i].0 == sid);
                    }
                    if exists|j: int| 0 <= j < i + 1 && *(#[trigger] v[j]).0 == sid && m[sid]@.topics.contains(topic@) {
                        let j = choose|j: int| 0 <= j < i + 1 && *(#[trigger] v[j]).0 == sid && m[sid]@.topics.contains(topic@);
                        if j < i {
                            assert(before.contains(sid));
                            let q = choose|q: int| 0 <= q < before.len() && before[q] == sid;
                            assert(r@[q] == sid);
                        } else {
                            assert(hit);
                            assert(r@ == before.push(*k));
                            assert(r@[before.len() as int] == sid);
                        }
                    }
                }
            }
        }
        proof {
            assert forall|sid: SID| r@.contains(sid) <==> listens(self@, sid, topic@) by {
                if listens(self@, sid, topic@) {
                    assert(v.contains((&sid, &m[sid])));
                    let j = choose|j: int| 0 <= j < v.len() && v[j] == (&sid, &m[sid]);
                    assert(*v[j].0 == sid);
                }
                if r@.contains(sid) {
                    let j = choose|j: int| 0 <= j < v.len() && *(#[trigger] v[j]).0 == sid && m[sid]@.topics.contains(topic@);
                    assert(m.contains_key(*v[j].0));
                }
            }
        }
        r
    }
    /// Some service that listens to `topic`, if there is one.
    pub fn first_subscriber(&self, topic: &String) -> (r: Option<SID>)
        ensures
            match r {
                Some(sid) => listens(self@, sid, topic@),
                None => forall|sid: SID| !listens(self@, sid, topic@),
            },
    {
        proof {
            use_type_invariant(self);
            lemma_view(self.services@);
        }
        let ghost m = self.services@;
        let ghost v = vstd::std_specs::hash::spec_hash_map_iter(&self.services).remaining();
        for (k, w) in it: self.services.iter()
            invariant
                it.seq() == v,
                m == self.services@,
                well_kept(m),
                forall|j: int| 0 <= j < it.index() ==> !(#[trigger] v[j]).1@.topics.contains(topic@),
        {
            let ghost i = it.index();
            proof {
                assert(m.contains_key(*v[i].0) && m[*v[i].0] == *v[i].1);
            }
            if topic_index(&w.subscriptions, topic).is_some() {
                return Some(*k);
            }
        }
        proof {
            assert forall|sid: SID| !listens(self@, sid, topic@) by {
                if self@.dom().contains(sid) {
                    assert(v.contains((&sid, &m[sid])));
                    let j = choose|j: int| 0 <= j < v.len() && v[j] == (&sid, &m[sid]);
                    assert(!v[j].1@.topics.contains(topic@));
                }
            }
        }
        None
    }

    /// Whether some registered service is called `name`.
    pub fn has_name(&self, name: &String) -> (r: bool)
        ensures
            r == named(self@, name@),
    {
        proof {
            use_type_invariant(self);
            lemma_view(self.services@);
        }
        let ghost m = self.services@;
        let ghost v = vstd::std_specs::hash::spec_hash_map_iter(&self.services).remaining();
        for (k, w) in it: self.services.iter()
            invariant
                it.seq() == v,
                m == self.services@,
                well_kept(m),
                forall|j: int| 0 <= j < it.index() ==> (#[trigger] v[j]).1.name@ != name@,
        {
            let ghost i = it.index();
            proof {
                assert(m.contains_key(*v[i].0) && m[*v[i].0] == *v[i].1);
            }
            if w.name == *name {
                proof {
                    assert(self@[*k].name == name@);
                }
                return true;
            }
        }
        proof {
            assert forall|sid: SID| self@.dom().contains(sid) implies #[trigger] self@[sid].name != name@ by {
                assert(v.contains((&sid, &m[sid])));
                let j = choose|j: int| 0 <= j < v.len() && v[j] == (&sid, &m[sid]);
                assert(v[j].1.name@ != name@);
            }
        }
        false
    }

    /// Every registered identifier, each once.
    pub fn sids(&self) -> (r: Vec<SID>)
        ensures
            r@.no_duplicates(),
            forall|sid: SID| r@.contains(sid) <==> self@.dom().contains(sid),
    {
        proof {
            use_type_invariant(self);
            lemma_view(self.services@);
        }
        let ghost m = self.services@;
        let ghost v = vstd::std_specs::hash::spec_hash_map_iter(&self.services).remaining();
        let mut r: Vec<SID> = Vec::new();
        for (k, _w) in it: self.services.iter()
            invariant
                it.seq() == v,
                v.no_duplicates(),
                m == self.services@,
                r@.len() == it.index(),
                forall|j: int| 0 <= j < it.index() ==> r@[j] == *(#[trigger] v[j]).0,
        {
            r.push(*k);
        }
        proof {
            assert forall|a: int, b: int| 0 <= a < b < r@.len() implies r@[a] != r@[b] by {
                assert(m.contains_key(*v[a].0) && m[*v[a].0] == *v[a].1);
                assert(m.contains_key(*v[b].0) && m[*v[b].0] == *v[b].1);
                if r@[a] == r@[b] {
                    assert(v[a] == v[b]);
                }
            }
            assert forall|sid: SID| r@.contains(sid) <==> self@.dom().contains(sid) by {
                if r@.contains(sid) {
                    let j = choose|j: int| 0 <= j < r@.len() && r@[j] == sid;
                    assert(m.contains_key(*v[j].0));
                }
                if self@.dom().contains(sid) {
                    assert(v.contains((&sid, &m[sid])));
                    let j = choose|j: int| 0 <= j < v.len() && v[j] == (&sid, &m[sid]);
                    assert(r@[j] == sid);
                }
            }
        }
        r
    }

    /// The name of the service `sid`, if one is registered there.
    pub fn name_of(&self, sid: SID) -> (r: Option<String>)
        ensures
            match r {
                Some(n) => self@.dom().contains(sid) && n@ == self@[sid].name,
                None => !self@.dom().contains(sid),
            },
    {
        proof {
            use_type_invariant(self);
            lemma_view(self.services@);
        }
        match self.services.get(&sid) {
            Some(w) => Some(w.name.clone()),
            None => None,
        }
    }

    /// An identifier no service is registered under: `hint` itself when it
    /// is free, otherwise the first free one in a run of consecutive
    /// identifiers from `hint` (or from 0, where that run would pass the
    /// largest identifier).
    pub fn fresh_id(&self, hint: SID) -> (r: SID)
        ensures
            !self@.dom().contains(r),
            !self@.dom().contains(hint) ==> r == hint,
    {
        proof {
            use_type_invariant(self);
            lemma_view(self.services@);
        }
        if !self.services.contains_key(&hint) {
            return hint;
        }
        let count: u64 = self.services.len() as u64;
        let base: u64 = if hint <= u64::MAX - count {
            hint
        } else {
            0
        };
        let mut step: u64 = 0;
        loop
            invariant
                step <= count,
                base + count <= u64::MAX,
                count == self.services@.dom().len(),
                self.services@.dom().finite(),
                forall|k: SID| base <= k < base + step ==> self.services@.dom().contains(k),
                self.services@.dom().contains(hint),
                self@.dom() == self.services@.dom(),
            decreases count - step,
        {
            let candidate = base + step;
            if !self.services.contains_key(&candidate) {
                return candidate;
            }
            proof {
                lemma_pigeonhole(self.services@.dom(), base, (step + 1) as nat);
            }
            step += 1;
        }
    }
}

} // verus!
