//! The forwarding hub.
//!
//! The proxy owns the last-value cache and decides, for each event its
//! event loop receives, what to send where. The two handlers below are the
//! whole of that decision: an ingress two-frame message updates the cache
//! and is forwarded to the egress side; an egress subscription event may
//! replay the cached last value to the new subscriber and is always
//! forwarded upstream. The surrounding socket loop performs the returned
//! actions in order.

use vstd::prelude::*;
use vstd::slice::slice_to_vec;
use crate::cache::TopicCache;

verus! {

/// One event the proxy's event loop can observe: a two-frame data message
/// on the ingress side, or a subscription control event on the egress side.
pub enum SpecEvent {
    Data { topic: Seq<u8>, payload: Seq<u8> },
    Control { event: Seq<u8> },
}

/// One transmission the proxy performs in response to an event. `Forward`
/// and `Replay` are two-frame units sent on the egress side; `Upstream`
/// is a control event forwarded on the ingress side.
pub enum SpecAction {
    Forward { topic: Seq<u8>, payload: Seq<u8> },
    Replay { topic: Seq<u8>, payload: Seq<u8> },
    Upstream { event: Seq<u8> },
}

/// A control event whose first byte announces a subscription activation.
pub open spec fn is_subscribe(event: Seq<u8>) -> bool {
    event.len() >= 1 && event[0] == 1u8
}

/// The topic bytes a control event concerns: everything after the
/// control byte.
pub open spec fn control_topic(event: Seq<u8>) -> Seq<u8> {
    event.skip(1)
}

/// How one event changes the cache: a data message records its payload as
/// the topic's last value; a control event leaves the cache untouched.
pub open spec fn step_cache(cache: Map<Seq<u8>, Seq<u8>>, e: SpecEvent) -> Map<Seq<u8>, Seq<u8>> {
    match e {
        SpecEvent::Data { topic, payload } => cache.insert(topic, payload),
        SpecEvent::Control { .. } => cache,
    }
}

/// What one event makes the proxy send. A data message is forwarded to
/// the egress side as one atomic unit. A subscribe activation is answered
/// with exactly one replay of the cached last value, when one exists,
/// and every control event is forwarded upstream.
pub open spec fn step_actions(cache: Map<Seq<u8>, Seq<u8>>, e: SpecEvent) -> Seq<SpecAction> {
    match e {
        SpecEvent::Data { topic, payload } => seq![(SpecAction::Forward { topic, payload })],
        SpecEvent::Control { event } => if is_subscribe(event) && cache.contains_key(
            control_topic(event),
        ) {
            seq![
                (SpecAction::Replay {
                    topic: control_topic(event),
                    payload: cache[control_topic(event)],
                }),
                (SpecAction::Upstream { event }),
            ]
        } else {
            seq![(SpecAction::Upstream { event })]
        },
    }
}

/// An action carried out by the proxy's event loop, with the bytes to
/// send. The loop sends the two frames of a `ForwardData` or `Replay` as
/// one atomic multipart unit on the egress side, and a `ForwardControl`
/// event on the ingress side.
pub enum ProxyAction {
    ForwardData { topic: Vec<u8>, payload: Vec<u8> },
    Replay { topic: Vec<u8>, payload: Vec<u8> },
    ForwardControl { event: Vec<u8> },
}

impl View for ProxyAction {
    type V = SpecAction;

    open spec fn view(&self) -> SpecAction {
        match self {
            ProxyAction::ForwardData { topic, payload } => SpecAction::Forward {
                topic: topic@,
                payload: payload@,
            },
            ProxyAction::Replay { topic, payload } => SpecAction::Replay {
                topic: topic@,
                payload: payload@,
            },
            ProxyAction::ForwardControl { event } => SpecAction::Upstream { event: event@ },
        }
    }
}

/// The actions a vector of them denotes, in order.
pub open spec fn actions_view(s: Seq<ProxyAction>) -> Seq<SpecAction> {
    s.map_values(|a: ProxyAction| a@)
}

/// The bytes of a byte string after its first byte.
fn tail_of(v: &[u8]) -> (r: Vec<u8>)
    requires
        v@.len() >= 1,
    ensures
        r@ == v@.skip(1),
{
    let n = v.len();
    let mut r: Vec<u8> = Vec::new();
    let mut i: usize = 1;
    proof {
        assert(r@ =~= v@.subrange(1, 1));
    }
    while i < n
        invariant
            1 <= i <= n,
            n == v@.len(),
            r@ == v@.subrange(1, i as int),
        decreases n - i,
    {
        r.push(v[i]);
        proof {
            assert(r@ =~= v@.subrange(1, i + 1));
        }
        i += 1;
    }
    proof {
        assert(r@ =~= v@.skip(1));
    }
    r
}

/// Forwards messages from publishers to subscribers and answers new
/// subscriptions from its last-value cache.
pub struct Proxy {
    cache: TopicCache,
}

impl View for Proxy {
    type V = Map<Seq<u8>, Seq<u8>>;

    closed spec fn view(&self) -> Map<Seq<u8>, Seq<u8>> {
        self.cache@
    }
}

impl Proxy {
    /// The proxy's internal invariant.
    pub closed spec fn wf(&self) -> bool {
        self.cache.wf()
    }

    /// A proxy with an empty cache, as at event-loop entry.
    pub fn new() -> (p: Proxy)
        ensures
            p.wf(),
            p@ == Map::<Seq<u8>, Seq<u8>>::empty(),
    {
        Proxy { cache: TopicCache::new() }
    }

    /// Process one two-frame data message from the ingress side: record
    /// the payload as the topic's last value (last write wins) and
    /// forward the same two frames to the egress side.
    pub fn handle_ingress(&mut self, topic: Vec<u8>, payload: Vec<u8>) -> (acts: Vec<ProxyAction>)
        requires
            old(self).wf(),
        ensures
            final(self).wf(),
            final(self)@ == step_cache(old(self)@, (SpecEvent::Data { topic: topic@, payload: payload@ })),
            actions_view(acts@) == step_actions(old(self)@, (SpecEvent::Data { topic: topic@, payload: payload@ })),
    {
        let cached_topic = slice_to_vec(topic.as_slice());
        let cached_payload = slice_to_vec(payload.as_slice());
        self.cache.insert(cached_topic, cached_payload);
        let mut acts: Vec<ProxyAction> = Vec::new();
        acts.push(ProxyAction::ForwardData { topic, payload });
        proof {
            assert(actions_view(acts@) =~= step_actions(
                old(self)@,
                (SpecEvent::Data { topic: topic@, payload: payload@ }),
            ));
        }
        acts
    }

    /// Process one subscription control event from the egress side: on a
    /// subscribe activation for a cached topic, replay the cached last
    /// value to the new subscriber, exactly once, using the cache as it
    /// stands at this moment; then, in every case, forward the raw event
    /// upstream. The cache is never changed and never consulted for an
    /// unsubscribe.
    pub fn handle_control(&mut self, event: Vec<u8>) -> (acts: Vec<ProxyAction>)
        requires
            old(self).wf(),
        ensures
            final(self).wf(),
            final(self)@ == old(self)@,
            actions_view(acts@) == step_actions(old(self)@, (SpecEvent::Control { event: event@ })),
    {
        let mut acts: Vec<ProxyAction> = Vec::new();
        if event.len() >= 1 && event[0] == 1u8 {
            let topic = tail_of(event.as_slice());
            match self.cache.get(topic.as_slice()) {
                Some(cached) => {
                    let payload = slice_to_vec(cached.as_slice());
                    acts.push(ProxyAction::Replay { topic, payload });
                },
                None => {},
            }
        }
        acts.push(ProxyAction::ForwardControl { event });
        proof {
            assert(actions_view(acts@) =~= step_actions(
                old(self)@,
                (SpecEvent::Control { event: event@ }),
            ));
        }
        acts
    }
}

} // verus!
