//! Topic-based publish/subscribe messaging with last-value caching.
//!
//! The crate holds the verified core of a small messaging system: the
//! message value, the broker's forwarding and caching rules, the frame
//! codec, and the listener's receive-loop decisions. Transport I/O (socket
//! binding, polling, thread management) lives outside the library and
//! drives these functions.

pub mod cache;
pub mod codec;
pub mod listener;
pub mod message;
pub mod proxy;
pub mod trace;
