//! The kernel's traffic as the broker sees it, and the registrations the
//! kernel hands the broker when it boots its services.
use vstd::prelude::*;

use crate::registry::{put, Registry, ServiceView};
use crate::SID;

verus! {

/// `rand::random::<u64>()` of the rand crate: a number drawn from the
/// thread-local generator. Nothing is stated of the number that comes back:
/// any `u64` may.
#[verifier::external_body]
pub(crate) fn random_sid() -> SID {
    rand::random::<SID>()
}

/// What a broker receives. The payloads that only the caller can hold (the
/// sending end of a registered channel, a shared frame buffer, the
/// constructor of a service) stay with the caller; the broker decides on
/// what is kept here.
pub enum Message {
    /// A shared frame, to be handed to one display.
    Share,
    /// Register, or revise, the channel of the service `sid` called `name`.
    Channel(SID, String),
    /// The service `sid` listens to a topic from now on.
    Subscribe(SID, String),
    /// The service `sid` stops listening to a topic.
    Unsubscribe(SID, String),
    /// Load the app at a URL, unless it is loaded already.
    BrokerGoto(String),
    /// An event `(topic, data)` for every service listening to the topic.
    Event(String, String),
    /// A service built at runtime, under the name it gives itself.
    Add(String),
}

/// The identifier of the broker, which the kernel starts first.
pub open spec fn broker_sid() -> SID {
    0
}

/// The identifier a channel registration names (0 for other messages).
pub open spec fn channel_sid(msg: Message) -> SID {
    match msg {
        Message::Channel(sid, _) => sid,
        _ => 0,
    }
}

/// The kernel: it starts the broker first, under identifier 0, then every
/// other service under an identifier of its own.
pub struct Kernel {
    ids: Registry,
}

impl View for Kernel {
    type V = Map<SID, ServiceView>;

    /// The services started so far, by identifier.
    closed spec fn view(&self) -> Map<SID, ServiceView> {
        self.ids@
    }
}

impl Kernel {
    #[verifier::type_invariant]
    spec fn inv(self) -> bool {
        self.ids@.dom().contains(broker_sid())
    }

    /// A kernel that has started only its broker.
    pub fn new() -> (k: Kernel)
        ensures
            k@ == put(Map::<SID, ServiceView>::empty(), broker_sid(), "broker"@),
    {
        let mut ids = Registry::new();
        ids.put(0, "broker");
        Kernel { ids }
    }

    /// Gives the next service, called `name`, a random identifier that no
    /// service started so far has (so never the broker's).
    pub fn register(&mut self, name: &str) -> (sid: SID)
        ensures
            sid != broker_sid(),
            !old(self)@.dom().contains(sid),
            final(self)@ == put(old(self)@, sid, name@),
    {
        proof {
            use_type_invariant(&*self);
        }
        let mut ids = Registry::new();
        ids.put(0, "broker");
        std::mem::swap(&mut ids, &mut self.ids);
        let sid = ids.fresh_id(random_sid());
        ids.put(sid, name);
        self.ids = ids;
        sid
    }

    /// The channel registrations the kernel sends the broker while it boots
    /// `names`: the first service is the broker itself and is not
    /// registered; every other one is registered under a random identifier,
    /// none of them the broker's and no two the same.
    pub fn registrations(names: &Vec<String>) -> (r: Vec<Message>)
        requires
            names.len() >= 1,
        ensures
            r.len() == names.len() - 1,
            forall|i: int|
                0 <= i < r.len() ==> (#[trigger] r[i] matches Message::Channel(sid, name) && sid != broker_sid() && name@
                    == names[i + 1]@),
            forall|i: int, j: int| 0 <= i < j < r.len() ==> channel_sid(#[trigger] r[i]) != channel_sid(#[trigger] r[j]),
    {
        let mut kernel = Kernel::new();
        let mut r: Vec<Message> = Vec::new();
        let mut i: usize = 1;
        while i < names.len()
            invariant
                1 <= i <= names.len(),
                r.len() == i - 1,
                forall|k: int|
                    0 <= k < r.len() ==> (#[trigger] r[k] matches Message::Channel(sid, name) && sid != broker_sid()
                        && name@ == names[k + 1]@),
                forall|a: int, b: int| 0 <= a < b < r.len() ==> channel_sid(#[trigger] r[a]) != channel_sid(#[trigger] r[b]),
                forall|k: int| 0 <= k < r.len() ==> kernel@.dom().contains(channel_sid(#[trigger] r[k])),
            decreases names.len() - i,
        {
            let sid = kernel.register(names[i].as_str());
            let ghost before = r@;
            r.push(Message::Channel(sid, names[i].clone()));
            proof {
                assert forall|a: int, b: int| 0 <= a < b < r.len() implies channel_sid(#[trigger] r[a]) != channel_sid(
                    #[trigger] r[b],
                ) by {
                    if b == r.len() - 1 {
                        assert(r[a] == before[a]);
                    }
                }
                assert forall|k: int| 0 <= k < r.len() implies kernel@.dom().contains(channel_sid(#[trigger] r[k])) by {
                    if k < r.len() - 1 {
                        assert(r[k] == before[k]);
                    }
                }
            }
            i += 1;
        }
        r
    }
}

} // verus!
