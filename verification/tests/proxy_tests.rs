use pubsub::cache::TopicCache;
use pubsub::codec::{decode_frames, encode_message};
use pubsub::message::Message;
use pubsub::proxy::{Proxy, ProxyAction};

fn subscribe_event(topic: &[u8]) -> Vec<u8> {
    let mut ev = vec![1u8];
    ev.extend_from_slice(topic);
    ev
}

fn unsubscribe_event(topic: &[u8]) -> Vec<u8> {
    let mut ev = vec![0u8];
    ev.extend_from_slice(topic);
    ev
}

fn frames_of(m: &Message) -> (Vec<u8>, Vec<u8>) {
    let fp = encode_message(m);
    (fp.topic_frame, fp.payload_frame)
}

#[test]
fn cache_insert_and_get() {
    let mut c = TopicCache::new();
    assert!(c.get(b"weather".as_slice()).is_none());
    c.insert(b"weather".to_vec(), b"one".to_vec());
    assert_eq!(c.get(b"weather".as_slice()).unwrap(), &b"one".to_vec());
    assert!(c.get(b"pressure".as_slice()).is_none());
}

#[test]
fn cache_last_write_wins() {
    let mut c = TopicCache::new();
    c.insert(b"t".to_vec(), b"first".to_vec());
    c.insert(b"t".to_vec(), b"second".to_vec());
    c.insert(b"u".to_vec(), b"other".to_vec());
    assert_eq!(c.get(b"t".as_slice()).unwrap(), &b"second".to_vec());
    assert_eq!(c.get(b"u".as_slice()).unwrap(), &b"other".to_vec());
}

#[test]
fn ingress_forwards_both_frames() {
    let mut p = Proxy::new();
    let (t, pay) = frames_of(&Message::new("weather", "sunny"));
    let acts = p.handle_ingress(t.clone(), pay.clone());
    assert_eq!(acts.len(), 1);
    match &acts[0] {
        ProxyAction::ForwardData { topic, payload } => {
            assert_eq!(topic, &t);
            assert_eq!(payload, &pay);
        }
        _ => panic!("expected a data forward"),
    }
}

#[test]
fn late_subscriber_gets_cached_value() {
    // Publish with no subscribers, then subscribe: the new party receives
    // the cached last value, exactly once, before any live traffic.
    let mut p = Proxy::new();
    let (t, pay) = frames_of(&Message::new("weather", "sunny"));
    p.handle_ingress(t, pay);

    let acts = p.handle_control(subscribe_event(b"weather"));
    assert_eq!(acts.len(), 2);
    match &acts[0] {
        ProxyAction::Replay { topic, payload } => {
            let m = decode_frames(topic.as_slice(), payload.as_slice()).unwrap();
            assert_eq!(m.topic, "weather");
            assert_eq!(m.payload, "sunny");
        }
        _ => panic!("expected a replay first"),
    }
    match &acts[1] {
        ProxyAction::ForwardControl { event } => {
            assert_eq!(event, &subscribe_event(b"weather"));
        }
        _ => panic!("expected the event forwarded upstream"),
    }
}

#[test]
fn live_forwarding_after_replay() {
    // After the late join, a further publish reaches the subscriber via a
    // single live forward, not a replay.
    let mut p = Proxy::new();
    let (t, pay) = frames_of(&Message::new("weather", "sunny"));
    p.handle_ingress(t, pay);
    p.handle_control(subscribe_event(b"weather"));

    let (t2, pay2) = frames_of(&Message::new("weather", "rainy"));
    let acts = p.handle_ingress(t2, pay2);
    assert_eq!(acts.len(), 1);
    match &acts[0] {
        ProxyAction::ForwardData { topic, payload } => {
            let m = decode_frames(topic.as_slice(), payload.as_slice()).unwrap();
            assert_eq!(m.topic, "weather");
            assert_eq!(m.payload, "rainy");
        }
        _ => panic!("expected a live forward"),
    }
}

#[test]
fn publish_without_subscribers_populates_cache() {
    let mut p = Proxy::new();
    let (t, pay) = frames_of(&Message::new("pressure", "1013"));
    let acts = p.handle_ingress(t, pay.clone());
    assert_eq!(acts.len(), 1);

    // Any future late subscriber finds the value.
    let acts = p.handle_control(subscribe_event(b"pressure"));
    assert_eq!(acts.len(), 2);
    match &acts[0] {
        ProxyAction::Replay { payload, .. } => assert_eq!(payload, &pay),
        _ => panic!("expected a replay"),
    }
}

#[test]
fn unsubscribe_never_replays() {
    let mut p = Proxy::new();
    let (t, pay) = frames_of(&Message::new("weather", "sunny"));
    p.handle_ingress(t, pay);

    let acts = p.handle_control(unsubscribe_event(b"weather"));
    assert_eq!(acts.len(), 1);
    match &acts[0] {
        ProxyAction::ForwardControl { event } => {
            assert_eq!(event, &unsubscribe_event(b"weather"));
        }
        _ => panic!("an unsubscribe must only be forwarded upstream"),
    }
}

#[test]
fn publish_after_unsubscribe_triggers_no_replay() {
    // Subscribe, unsubscribe, then publish a new value: the broker sends
    // exactly one live forward for the transport's filters to match (the
    // departed party's filter no longer does) and never replays to it.
    let mut p = Proxy::new();
    let (t, pay) = frames_of(&Message::new("weather", "sunny"));
    p.handle_ingress(t, pay);
    p.handle_control(subscribe_event(b"weather"));
    p.handle_control(unsubscribe_event(b"weather"));

    let (t2, pay2) = frames_of(&Message::new("weather", "stormy"));
    let acts = p.handle_ingress(t2, pay2);
    assert_eq!(acts.len(), 1);
    assert!(matches!(&acts[0], ProxyAction::ForwardData { .. }));
}

#[test]
fn subscribe_to_uncached_topic_only_forwards() {
    let mut p = Proxy::new();
    let acts = p.handle_control(subscribe_event(b"weather"));
    assert_eq!(acts.len(), 1);
    assert!(matches!(&acts[0], ProxyAction::ForwardControl { .. }));
}

#[test]
fn empty_control_event_only_forwards() {
    let mut p = Proxy::new();
    let acts = p.handle_control(Vec::new());
    assert_eq!(acts.len(), 1);
    assert!(matches!(&acts[0], ProxyAction::ForwardControl { .. }));
}

#[test]
fn distinct_topics_do_not_cross() {
    // Two publishers on distinct topics: each forward and each replay
    // carries its own topic's payload, with no cross-contamination.
    let mut p = Proxy::new();
    let (ta, paya) = frames_of(&Message::new("a", "payload-a"));
    let (tb, payb) = frames_of(&Message::new("b", "payload-b"));
    p.handle_ingress(ta, paya);
    p.handle_ingress(tb, payb);

    let acts_a = p.handle_control(subscribe_event(b"a"));
    match &acts_a[0] {
        ProxyAction::Replay { topic, payload } => {
            let m = decode_frames(topic.as_slice(), payload.as_slice()).unwrap();
            assert_eq!(m.topic, "a");
            assert_eq!(m.payload, "payload-a");
        }
        _ => panic!("expected a replay for topic a"),
    }
    let acts_b = p.handle_control(subscribe_event(b"b"));
    match &acts_b[0] {
        ProxyAction::Replay { topic, payload } => {
            let m = decode_frames(topic.as_slice(), payload.as_slice()).unwrap();
            assert_eq!(m.topic, "b");
            assert_eq!(m.payload, "payload-b");
        }
        _ => panic!("expected a replay for topic b"),
    }
}

#[test]
fn sequential_publishes_forward_in_order() {
    // Two sequential publishes on one topic come out as two forwards in
    // the order they went in.
    let mut p = Proxy::new();
    let (t1, pay1) = frames_of(&Message::new("weather", "first"));
    let (t2, pay2) = frames_of(&Message::new("weather", "second"));
    let acts1 = p.handle_ingress(t1, pay1.clone());
    let acts2 = p.handle_ingress(t2, pay2.clone());
    let all: Vec<&ProxyAction> = acts1.iter().chain(acts2.iter()).collect();
    assert_eq!(all.len(), 2);
    match (all[0], all[1]) {
        (
            ProxyAction::ForwardData { payload: p1, .. },
            ProxyAction::ForwardData { payload: p2, .. },
        ) => {
            assert_eq!(p1, &pay1);
            assert_eq!(p2, &pay2);
        }
        _ => panic!("expected two data forwards"),
    }
}
