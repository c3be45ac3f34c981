//! The two-frame wire codec.
//!
//! A message travels as an atomic two-frame unit: frame one is the topic's
//! raw UTF-8 bytes, frame two is the payload serialized as a little-endian
//! eight-byte length followed by the payload's UTF-8 bytes. Both directions
//! are specified exactly, so the round trip is proved lossless.

use vstd::prelude::*;
use vstd::bytes::{spec_u64_from_le_bytes, spec_u64_to_le_bytes, lemma_auto_spec_u64_to_from_le_bytes};
use vstd::utf8::{decode_utf8, encode_utf8, valid_utf8};
use vstd::slice::slice_to_vec;
use crate::message::Message;

verus! {

broadcast use vstd::utf8::encode_utf8_valid_utf8, vstd::utf8::encode_utf8_decode_utf8;

/// The serialized form of a payload string: a little-endian eight-byte
/// byte-length prefix followed by the payload's UTF-8 bytes.
pub open spec fn payload_encoding(s: Seq<char>) -> Seq<u8> {
    spec_u64_to_le_bytes(encode_utf8(s).len() as u64) + encode_utf8(s)
}

/// The byte length announced by a payload frame's length prefix.
pub open spec fn payload_announced_len(b: Seq<u8>) -> int {
    spec_u64_from_le_bytes(b.subrange(0, 8)) as int
}

/// The bytes of a payload frame that the length prefix covers.
pub open spec fn payload_body(b: Seq<u8>) -> Seq<u8> {
    b.subrange(8, 8 + payload_announced_len(b))
}

/// A payload frame deserializes successfully exactly when it has a full
/// length prefix, the announced number of bytes is present, and those
/// bytes are valid UTF-8. Bytes beyond the announced length are ignored.
pub open spec fn payload_well_formed(b: Seq<u8>) -> bool {
    &&& b.len() >= 8
    &&& 8 + payload_announced_len(b) <= b.len()
    &&& valid_utf8(payload_body(b))
}

/// The payload string carried by a well-formed payload frame.
pub open spec fn payload_decoding(b: Seq<u8>) -> Seq<char> {
    decode_utf8(payload_body(b))
}

/// Relies on bincode::serialize for a string: with the crate's default
/// configuration it writes the byte length as a fixed-size little-endian
/// u64 and then the raw UTF-8 bytes; writing into a fresh Vec with no
/// size limit cannot fail.
#[verifier::external_body]
fn serialize_payload(s: &str) -> (r: Vec<u8>)
    ensures
        r@ == payload_encoding(s@),
{
    bincode::serialize(s).unwrap()
}

/// Relies on bincode::deserialize for a string: with the crate's default
/// configuration it reads a fixed-size little-endian u64 byte length and
/// then that many bytes, requires them to be valid UTF-8, and ignores any
/// trailing bytes.
#[verifier::external_body]
fn deserialize_payload(b: &[u8]) -> (r: Option<String>)
    ensures
        r is Some <==> payload_well_formed(b@),
        r matches Some(s) ==> s@ == payload_decoding(b@),
{
    bincode::deserialize::<String>(b).ok()
}

/// Relies on str::from_utf8: it succeeds exactly on valid UTF-8 input
/// and the resulting string's bytes are the input bytes.
#[verifier::external_body]
fn bytes_as_str(b: &[u8]) -> (r: Option<&str>)
    ensures
        r is Some <==> valid_utf8(b@),
        r matches Some(s) ==> s@ == decode_utf8(b@),
{
    core::str::from_utf8(b).ok()
}

/// The two frames of one message, built together and sent together, so
/// that no receiver can observe a topic frame without its payload frame.
pub struct FramePair {
    pub topic_frame: Vec<u8>,
    pub payload_frame: Vec<u8>,
}

/// Serialize a message into its atomic two-frame unit.
pub fn encode_message(m: &Message) -> (fp: FramePair)
    ensures
        fp.topic_frame@ == encode_utf8(m.topic@),
        fp.payload_frame@ == payload_encoding(m.payload@),
{
    let topic_frame = slice_to_vec(m.topic.as_str().as_bytes());
    let payload_frame = serialize_payload(m.payload.as_str());
    FramePair { topic_frame, payload_frame }
}

/// Why a received two-frame unit could not be turned into a message.
#[derive(Clone, Copy, Debug, PartialEq, Eq, Structural)]
pub enum DecodeError {
    /// The topic frame is not valid UTF-8.
    BadTopic,
    /// The topic frame decodes to the empty string.
    EmptyTopic,
    /// The payload frame is not a well-formed serialized string.
    BadPayload,
}

/// Both frames of a received unit decode to a routable message.
pub open spec fn frames_decodable(t: Seq<u8>, p: Seq<u8>) -> bool {
    &&& valid_utf8(t)
    &&& decode_utf8(t).len() > 0
    &&& payload_well_formed(p)
}

/// Reconstruct a message from a received two-frame unit. A malformed
/// unit is reported, never a reason to stop receiving.
pub fn decode_frames(topic_frame: &[u8], payload_frame: &[u8]) -> (r: Result<Message, DecodeError>)
    ensures
        r is Ok <==> frames_decodable(topic_frame@, payload_frame@),
        r matches Ok(m) ==> {
            &&& m.topic@ == decode_utf8(topic_frame@)
            &&& m.payload@ == payload_decoding(payload_frame@)
        },
        r == Err::<Message, DecodeError>(DecodeError::BadTopic) <==> !valid_utf8(topic_frame@),
        r == Err::<Message, DecodeError>(DecodeError::EmptyTopic) <==> (valid_utf8(topic_frame@)
            && decode_utf8(topic_frame@).len() == 0),
        r == Err::<Message, DecodeError>(DecodeError::BadPayload) <==> (valid_utf8(topic_frame@)
            && decode_utf8(topic_frame@).len() > 0 && !payload_well_formed(payload_frame@)),
{
    match bytes_as_str(topic_frame) {
        None => Err(DecodeError::BadTopic),
        Some(topic) => {
            if topic.is_empty() {
                Err(DecodeError::EmptyTopic)
            } else {
                match deserialize_payload(payload_frame) {
                    None => Err(DecodeError::BadPayload),
                    Some(payload) => Ok(Message::new(topic, payload.as_str())),
                }
            }
        },
    }
}

/// Serializing a payload always yields a well-formed payload frame, and
/// deserializing it gives the payload back unchanged.
pub proof fn lemma_payload_round_trip(s: Seq<char>)
    requires
        encode_utf8(s).len() <= u64::MAX,
    ensures
        payload_well_formed(payload_encoding(s)),
        payload_decoding(payload_encoding(s)) == s,
{
    lemma_auto_spec_u64_to_from_le_bytes();
    let e = encode_utf8(s);
    let b = payload_encoding(s);
    assert(b.subrange(0, 8) =~= spec_u64_to_le_bytes(e.len() as u64));
    assert(payload_announced_len(b) == e.len());
    assert(payload_body(b) =~= e);
}

/// A message's two-frame encoding always decodes, and decodes to the
/// same topic and payload: the codec is lossless.
pub proof fn lemma_frame_round_trip(topic: Seq<char>, payload: Seq<char>)
    requires
        topic.len() > 0,
        encode_utf8(payload).len() <= u64::MAX,
    ensures
        frames_decodable(encode_utf8(topic), payload_encoding(payload)),
        decode_utf8(encode_utf8(topic)) == topic,
        payload_decoding(payload_encoding(payload)) == payload,
{
    lemma_payload_round_trip(payload);
}

} // verus!
