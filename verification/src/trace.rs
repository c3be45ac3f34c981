//! Laws of the proxy over whole event histories.
//!
//! `run_cache` and `run_actions` fold the proxy's single-step transition
//! over a sequence of events, exactly as the single-threaded event loop
//! does; the proof functions below state what holds of every such history:
//! last-value caching is correct, unsubscribes never cause a replay, the
//! egress wire carries only complete topic/payload pairs, and forwarding
//! preserves publish order.

use vstd::prelude::*;
use crate::proxy::{
    control_topic, is_subscribe, step_actions, step_cache, SpecAction, SpecEvent,
};

verus! {

/// The cache after the proxy has processed the events of `evs` in order,
/// starting from `init`.
pub open spec fn run_cache(init: Map<Seq<u8>, Seq<u8>>, evs: Seq<SpecEvent>) -> Map<
    Seq<u8>,
    Seq<u8>,
>
    decreases evs.len(),
{
    if evs.len() == 0 {
        init
    } else {
        step_cache(run_cache(init, evs.drop_last()), evs.last())
    }
}

/// Everything the proxy sends while processing the events of `evs` in
/// order, starting from cache `init`.
pub open spec fn run_actions(init: Map<Seq<u8>, Seq<u8>>, evs: Seq<SpecEvent>) -> Seq<SpecAction>
    decreases evs.len(),
{
    if evs.len() == 0 {
        Seq::empty()
    } else {
        run_actions(init, evs.drop_last()) + step_actions(
            run_cache(init, evs.drop_last()),
            evs.last(),
        )
    }
}

/// The event is a data message on topic `t`.
pub open spec fn is_data_on(e: SpecEvent, t: Seq<u8>) -> bool {
    match e {
        SpecEvent::Data { topic, .. } => topic == t,
        SpecEvent::Control { .. } => false,
    }
}

/// Some event of `evs` is a data message on topic `t`.
pub open spec fn has_data_on(evs: Seq<SpecEvent>, t: Seq<u8>) -> bool
    decreases evs.len(),
{
    if evs.len() == 0 {
        false
    } else {
        is_data_on(evs.last(), t) || has_data_on(evs.drop_last(), t)
    }
}

/// The payload of the most recent data message on topic `t`.
pub open spec fn last_payload_on(evs: Seq<SpecEvent>, t: Seq<u8>) -> Seq<u8>
    recommends
        has_data_on(evs, t),
    decreases evs.len(),
{
    if evs.len() == 0 {
        arbitrary()
    } else if is_data_on(evs.last(), t) {
        match evs.last() {
            SpecEvent::Data { payload, .. } => payload,
            SpecEvent::Control { .. } => arbitrary(),
        }
    } else {
        last_payload_on(evs.drop_last(), t)
    }
}

/// Last-value caching is correct: after any history, the cache holds, for
/// each topic that was ever published, exactly the payload of the most
/// recent publish on it; a topic never published keeps its initial entry
/// or none.
pub proof fn lemma_last_value_cache(init: Map<Seq<u8>, Seq<u8>>, evs: Seq<SpecEvent>, t: Seq<u8>)
    ensures
        has_data_on(evs, t) ==> run_cache(init, evs).contains_key(t) && run_cache(init, evs)[t]
            == last_payload_on(evs, t),
        !has_data_on(evs, t) ==> (run_cache(init, evs).contains_key(t) <==> init.contains_key(t))
            && (init.contains_key(t) ==> run_cache(init, evs)[t] == init[t]),
    decreases evs.len(),
{
    if evs.len() > 0 {
        lemma_last_value_cache(init, evs.drop_last(), t);
    }
}

/// A subscribe activation processed after a history replays the most
/// recent payload published on its topic, exactly once, and replays
/// nothing when the topic was never published and started uncached.
pub proof fn lemma_replay_exactly_once(
    init: Map<Seq<u8>, Seq<u8>>,
    evs: Seq<SpecEvent>,
    event: Seq<u8>,
)
    requires
        is_subscribe(event),
    ensures
        has_data_on(evs, control_topic(event)) ==> step_actions(
            run_cache(init, evs),
            (SpecEvent::Control { event }),
        ) =~= seq![
            (SpecAction::Replay {
                topic: control_topic(event),
                payload: last_payload_on(evs, control_topic(event)),
            }),
            (SpecAction::Upstream { event }),
        ],
        !has_data_on(evs, control_topic(event)) && !init.contains_key(control_topic(event))
            ==> step_actions(run_cache(init, evs), (SpecEvent::Control { event })) =~= seq![
            (SpecAction::Upstream { event }),
        ],
{
    lemma_last_value_cache(init, evs, control_topic(event));
}

/// An unsubscribe control event never triggers a replay and never
/// changes the cache, whatever the cache holds: it is only forwarded
/// upstream.
pub proof fn lemma_no_replay_on_unsubscribe(cache: Map<Seq<u8>, Seq<u8>>, event: Seq<u8>)
    requires
        !is_subscribe(event),
    ensures
        step_actions(cache, (SpecEvent::Control { event })) =~= seq![
            (SpecAction::Upstream { event }),
        ],
        step_cache(cache, (SpecEvent::Control { event })) == cache,
{
}

/// The egress transmissions among some actions, as topic/payload pairs.
pub open spec fn egress_pairs(acts: Seq<SpecAction>) -> Seq<(Seq<u8>, Seq<u8>)>
    decreases acts.len(),
{
    if acts.len() == 0 {
        Seq::empty()
    } else {
        egress_pairs(acts.drop_last()) + (match acts.last() {
            SpecAction::Forward { topic, payload } => seq![(topic, payload)],
            SpecAction::Replay { topic, payload } => seq![(topic, payload)],
            SpecAction::Upstream { .. } => Seq::empty(),
        })
    }
}

/// The frames those actions put on the egress wire, in order.
pub open spec fn egress_frames(acts: Seq<SpecAction>) -> Seq<Seq<u8>>
    decreases acts.len(),
{
    if acts.len() == 0 {
        Seq::empty()
    } else {
        egress_frames(acts.drop_last()) + (match acts.last() {
            SpecAction::Forward { topic, payload } => seq![topic, payload],
            SpecAction::Replay { topic, payload } => seq![topic, payload],
            SpecAction::Upstream { .. } => Seq::empty(),
        })
    }
}

/// Atomicity of the egress wire: the frames the proxy sends to
/// subscribers are exactly the concatenation of complete two-frame
/// units, so no observer can see a topic frame without its payload frame,
/// nor a payload frame not preceded by its topic frame.
pub proof fn lemma_frame_atomicity(acts: Seq<SpecAction>)
    ensures
        egress_frames(acts).len() == 2 * egress_pairs(acts).len(),
        forall|k: int| 0 <= k < egress_pairs(acts).len() ==> egress_frames(acts)[2 * k]
            == egress_pairs(acts)[k].0 && egress_frames(acts)[2 * k + 1] == egress_pairs(acts)[k].1,
    decreases acts.len(),
{
    if acts.len() > 0 {
        lemma_frame_atomicity(acts.drop_last());
    }
}

/// The data forwards among some actions, in order.
pub open spec fn forwards_of(acts: Seq<SpecAction>) -> Seq<SpecAction>
    decreases acts.len(),
{
    if acts.len() == 0 {
        Seq::empty()
    } else {
        forwards_of(acts.drop_last()) + (match acts.last() {
            SpecAction::Forward { .. } => seq![acts.last()],
            _ => Seq::empty(),
        })
    }
}

/// The forwards that the data messages of a history call for, in order.
pub open spec fn data_forwards(evs: Seq<SpecEvent>) -> Seq<SpecAction>
    decreases evs.len(),
{
    if evs.len() == 0 {
        Seq::empty()
    } else {
        data_forwards(evs.drop_last()) + (match evs.last() {
            SpecEvent::Data { topic, payload } => seq![(SpecAction::Forward { topic, payload })],
            SpecEvent::Control { .. } => Seq::empty(),
        })
    }
}

proof fn lemma_forwards_of_add(a: Seq<SpecAction>, b: Seq<SpecAction>)
    ensures
        forwards_of(a + b) =~= forwards_of(a) + forwards_of(b),
    decreases b.len(),
{
    if b.len() == 0 {
        assert(a + b =~= a);
        assert(forwards_of(a) + forwards_of(b) =~= forwards_of(a));
    } else {
        lemma_forwards_of_add(a, b.drop_last());
        assert((a + b).drop_last() =~= a + b.drop_last());
        assert((a + b).last() == b.last());
    }
}

/// Ordering is preserved: the proxy forwards data messages to the egress
/// side exactly in the order it received them, so two sequential
/// publishes on one topic are observed by every subscriber in the order
/// they were issued.
pub proof fn lemma_forwarding_order(init: Map<Seq<u8>, Seq<u8>>, evs: Seq<SpecEvent>)
    ensures
        forwards_of(run_actions(init, evs)) =~= data_forwards(evs),
    decreases evs.len(),
{
    if evs.len() > 0 {
        lemma_forwarding_order(init, evs.drop_last());
        let prev = run_actions(init, evs.drop_last());
        let step = step_actions(run_cache(init, evs.drop_last()), evs.last());
        lemma_forwards_of_add(prev, step);
        match evs.last() {
            SpecEvent::Data { topic, payload } => {
                assert(forwards_of(step) =~= seq![(SpecAction::Forward { topic, payload })]) by {
                    reveal_with_fuel(forwards_of, 4);
                }
            },
            SpecEvent::Control { event } => {
                assert(forwards_of(step) =~= Seq::<SpecAction>::empty()) by {
                    reveal_with_fuel(forwards_of, 4);
                }
            },
        }
    }
}

} // verus!
