use pubsub::codec::{encode_message, DecodeError};
use pubsub::listener::{poll_decision, receive_step, ListenerCore, LoopStep, PollDecision};
use pubsub::message::Message;

#[test]
fn poll_exits_once_flag_is_down() {
    // A stop request is honoured at the very next check, whether or not
    // a frame is waiting.
    assert_eq!(poll_decision(false, false), PollDecision::Exit);
    assert_eq!(poll_decision(false, true), PollDecision::Exit);
}

#[test]
fn poll_receives_or_retries_while_running() {
    assert_eq!(poll_decision(true, true), PollDecision::Receive);
    assert_eq!(poll_decision(true, false), PollDecision::Retry);
}

#[test]
fn receive_step_delivers_good_frames() {
    let fp = encode_message(&Message::new("weather", "sunny"));
    match receive_step(fp.topic_frame.as_slice(), fp.payload_frame.as_slice()) {
        LoopStep::Deliver(m) => {
            assert_eq!(m.topic, "weather");
            assert_eq!(m.payload, "sunny");
        }
        LoopStep::Report(_) => panic!("good frames must be delivered"),
    }
}

#[test]
fn receive_step_reports_malformed_frames() {
    // A malformed unit is reported, never fatal: the step still yields a
    // continuation of the loop.
    match receive_step(&[0xffu8], &[]) {
        LoopStep::Report(e) => assert_eq!(e, DecodeError::BadTopic),
        LoopStep::Deliver(_) => panic!("invalid topic bytes must be reported"),
    }
    match receive_step(b"ok", &[1u8, 2]) {
        LoopStep::Report(e) => assert_eq!(e, DecodeError::BadPayload),
        LoopStep::Deliver(_) => panic!("a short payload frame must be reported"),
    }
}

#[test]
fn stop_is_idempotent() {
    let mut l = ListenerCore::new("weather");
    assert!(l.running);
    assert!(!l.joined);

    // The first stop lowers the flag and owes a join.
    let must_join = l.request_stop();
    assert!(must_join);
    assert!(!l.running);
    assert!(l.joined);

    // The second stop changes nothing and returns immediately.
    let must_join = l.request_stop();
    assert!(!must_join);
    assert!(!l.running);
    assert!(l.joined);
    assert_eq!(l.topic, "weather");
}
