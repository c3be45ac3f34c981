//! The message value exchanged between publishers and listeners.

use vstd::prelude::*;

verus! {

/// An immutable topic/payload pair. A message has no identity beyond its
/// contents; the topic routes it, the payload is opaque to the broker.
#[derive(Clone, Debug)]
pub struct Message {
    pub topic: String,
    pub payload: String,
}

impl Message {
    /// Create a new message. Topics must be non-empty: an empty topic
    /// would subscribe-match every message and cannot be routed.
    pub fn new(topic: &str, payload: &str) -> (m: Message)
        requires
            topic@.len() > 0,
        ensures
            m.topic@ == topic@,
            m.payload@ == payload@,
    {
        Message { topic: topic.to_owned(), payload: payload.to_owned() }
    }
}

} // verus!
