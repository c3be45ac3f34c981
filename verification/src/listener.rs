//! The subscriber-side receive loop's decisions and lifecycle.
//!
//! The background loop itself runs outside the library, next to the
//! transport: each iteration it reads the shared running flag, makes one
//! bounded-wait attempt at a topic frame, and asks `poll_decision` what to
//! do; on a complete two-frame unit it asks `receive_step` what to hand
//! the callback. `ListenerCore` models the handle's lifecycle, so that
//! stopping is proved idempotent.

use vstd::prelude::*;
use crate::codec::{decode_frames, frames_decodable, DecodeError};
use crate::message::Message;

verus! {

/// What one iteration of the receive loop does next.
#[derive(Clone, Copy, Debug, PartialEq, Eq, Structural)]
pub enum PollDecision {
    /// The running flag is down: leave the loop now, without waiting for
    /// further traffic.
    Exit,
    /// A topic frame is available: receive the payload frame that the
    /// transport guarantees follows it atomically.
    Receive,
    /// Nothing available yet: re-check the flag and poll again.
    Retry,
}

/// Decide one iteration of the receive loop from the running flag and
/// whether the bounded-wait receive produced a topic frame. The flag is
/// decisive: once it is down the loop exits on its very next check, so a
/// stop request is honoured within one poll interval.
pub fn poll_decision(running: bool, frame_ready: bool) -> (d: PollDecision)
    ensures
        d == PollDecision::Exit <==> !running,
        d == PollDecision::Receive <==> running && frame_ready,
        d == PollDecision::Retry <==> running && !frame_ready,
{
    if !running {
        PollDecision::Exit
    } else if frame_ready {
        PollDecision::Receive
    } else {
        PollDecision::Retry
    }
}

/// What the loop does with one complete two-frame unit: deliver the
/// reconstructed message to the callback, or report the malformed unit.
/// There is no third case: a bad message is never a reason to leave the
/// loop.
pub enum LoopStep {
    Deliver(Message),
    Report(DecodeError),
}

/// Turn one received two-frame unit into the loop's next step.
pub fn receive_step(topic_frame: &[u8], payload_frame: &[u8]) -> (s: LoopStep)
    ensures
        s is Deliver <==> frames_decodable(topic_frame@, payload_frame@),
        s matches LoopStep::Deliver(m) ==> {
            &&& m.topic@ == vstd::utf8::decode_utf8(topic_frame@)
            &&& m.payload@ == crate::codec::payload_decoding(payload_frame@)
        },
        s matches LoopStep::Report(e) ==> decode_frames_err(topic_frame@, payload_frame@, e),
{
    match decode_frames(topic_frame, payload_frame) {
        Ok(m) => LoopStep::Deliver(m),
        Err(e) => LoopStep::Report(e),
    }
}

/// The error that decoding the given frames reports.
pub open spec fn decode_frames_err(t: Seq<u8>, p: Seq<u8>, e: DecodeError) -> bool {
    match e {
        DecodeError::BadTopic => !vstd::utf8::valid_utf8(t),
        DecodeError::EmptyTopic => vstd::utf8::valid_utf8(t) && vstd::utf8::decode_utf8(t).len()
            == 0,
        DecodeError::BadPayload => vstd::utf8::valid_utf8(t) && vstd::utf8::decode_utf8(t).len()
            > 0 && !crate::codec::payload_well_formed(p),
    }
}

/// The lifecycle of one listener handle: which topic it follows, whether
/// its shared running flag is still up, and whether its background task
/// has been joined. The flag is the only cross-thread state; it moves in
/// one direction only.
pub struct ListenerCore {
    pub topic: String,
    pub running: bool,
    pub joined: bool,
}

impl ListenerCore {
    /// A joined listener's flag is down: the background task only exits,
    /// and so can only be joined, after the flag was lowered.
    pub open spec fn wf(&self) -> bool {
        self.joined ==> !self.running
    }

    /// The state of a freshly subscribed listener: flag up, background
    /// task running.
    pub fn new(topic: &str) -> (l: ListenerCore)
        requires
            topic@.len() > 0,
        ensures
            l.wf(),
            l.topic@ == topic@,
            l.running,
            !l.joined,
    {
        ListenerCore { topic: topic.to_owned(), running: true, joined: false }
    }

    /// Request a cooperative stop: lower the flag, then join the
    /// background task if it has not been joined yet. The result says
    /// whether a join is still owed; on a repeated call it is false, and
    /// the call changes nothing, so stopping twice is safe and the
    /// second call returns immediately.
    pub fn request_stop(&mut self) -> (must_join: bool)
        requires
            old(self).wf(),
        ensures
            final(self).wf(),
            final(self).topic == old(self).topic,
            !final(self).running,
            final(self).joined,
            must_join == !old(self).joined,
            old(self).joined ==> *final(self) == *old(self),
    {
        self.running = false;
        if self.joined {
            false
        } else {
            self.joined = true;
            true
        }
    }
}

/// The stopped form of a listener state.
pub open spec fn stopped(l: ListenerCore) -> ListenerCore {
    ListenerCore { running: false, joined: true, ..l }
}

/// Stopping is idempotent: stopping an already-stopped listener is the
/// identity.
pub proof fn lemma_stop_idempotent(l: ListenerCore)
    ensures
        stopped(stopped(l)) == stopped(l),
{
}

} // verus!
