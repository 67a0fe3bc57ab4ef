//! The participant message envelope.
//!
//! Every message a participant posts starts with a fixed header: its own
//! public key, the coordinator's public key, an Ed25519 signature, a one-byte
//! payload tag and a four-byte payload length. The signature covers
//! everything after it — tag, length and payload. The envelope is parsed and
//! its signature checked here; the payload bytes are handed on to the phase
//! the tag names.

use vstd::prelude::*;
use crate::bytes::copy_range;
use crate::codec::{be32_val, read_be32, DecodeError};
use crate::crypto::sig_valid;

verus! {

/// The number of bytes before the payload: two keys, a signature, the tag
/// and the payload length.
pub const HEADER_LEN: usize = 133;

/// Which payload a message carries.
#[derive(Clone, Copy, PartialEq, Eq, Structural, Debug)]
pub enum MessageTag {
    Sum,
    Update,
    Sum2,
}

/// The wire value of a payload tag.
pub open spec fn tag_u8(t: MessageTag) -> u8 {
    match t {
        MessageTag::Sum => 1,
        MessageTag::Update => 2,
        MessageTag::Sum2 => 3,
    }
}

/// The payload tag a wire byte names.
pub open spec fn tag_from_u8(v: u8) -> Option<MessageTag> {
    if v == 1 {
        Some(MessageTag::Sum)
    } else if v == 2 {
        Some(MessageTag::Update)
    } else if v == 3 {
        Some(MessageTag::Sum2)
    } else {
        None
    }
}

/// A parsed message header.
#[derive(Debug)]
pub struct MessageHeader {
    pub participant_pk: Vec<u8>,
    pub coordinator_pk: Vec<u8>,
    pub signature: Vec<u8>,
    pub tag: MessageTag,
    pub length: u32,
}

/// A byte string that starts with a well-formed message header whose
/// announced payload ends exactly at the end of the string.
pub open spec fn valid_message_bytes(s: Seq<u8>) -> bool {
    &&& s.len() >= HEADER_LEN
    &&& tag_from_u8(s[128]).is_some()
    &&& s.len() == HEADER_LEN + be32_val(s.subrange(129, 133))
}

impl MessageHeader {
    /// The header fields `h` read out of `s`.
    pub open spec fn parsed_from(&self, s: Seq<u8>) -> bool {
        &&& self.participant_pk@ == s.subrange(0, 32)
        &&& self.coordinator_pk@ == s.subrange(32, 64)
        &&& self.signature@ == s.subrange(64, 128)
        &&& Some(self.tag) == tag_from_u8(s[128])
        &&& self.length == be32_val(s.subrange(129, 133))
    }

    /// Parses the header of a message and checks that the announced payload
    /// length matches what was received.
    pub fn parse(bytes: &Vec<u8>) -> (r: Result<MessageHeader, DecodeError>)
        ensures
            match r {
                Ok(h) => valid_message_bytes(bytes@) && h.parsed_from(bytes@),
                Err(_) => !valid_message_bytes(bytes@),
            },
    {
        let n = bytes.len();
        if n < HEADER_LEN {
            return Err(DecodeError::TooShort);
        }
        let tag = match bytes[128] {
            1 => MessageTag::Sum,
            2 => MessageTag::Update,
            3 => MessageTag::Sum2,
            _ => {
                return Err(DecodeError::InvalidTag);
            },
        };
        let length = read_be32(bytes, 129);
        if (n as u64) != (HEADER_LEN as u64) + (length as u64) {
            return Err(DecodeError::TrailingBytes);
        }
        Ok(
            MessageHeader {
                participant_pk: copy_range(bytes, 0, 32),
                coordinator_pk: copy_range(bytes, 32, 64),
                signature: copy_range(bytes, 64, 128),
                tag,
                length,
            },
        )
    }

    /// A copy of the payload: everything after the header.
    pub fn payload_of(bytes: &Vec<u8>) -> (r: Vec<u8>)
        requires
            bytes@.len() >= HEADER_LEN,
        ensures
            r@ == bytes@.skip(HEADER_LEN as int),
    {
        copy_range(bytes, HEADER_LEN, bytes.len())
    }
}

/// Whether the message's signature, under the participant key it names,
/// covers everything after the signature field.
pub open spec fn message_sig_ok(s: Seq<u8>) -> bool {
    sig_valid(s.subrange(64, 128), s.skip(128), s.subrange(0, 32))
}

/// Checks the envelope signature of a message.
pub fn check_message_signature(bytes: &Vec<u8>) -> (r: bool)
    requires
        bytes@.len() >= HEADER_LEN,
    ensures
        r == message_sig_ok(bytes@),
{
    let sig = copy_range(bytes, 64, 128);
    let pk = copy_range(bytes, 0, 32);
    let signed = copy_range(bytes, 128, bytes.len());
    proof {
        assert(bytes@.subrange(128, bytes@.len() as int) =~= bytes@.skip(128));
    }
    crate::crypto::verify_detached_raw(&sig, &signed, &pk)
}

} // verus!
