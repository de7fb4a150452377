use vstd::prelude::*;
use vstd::utf8::{decode_utf8, valid_utf8};

verus! {

#[verifier::external_type_specification]
#[verifier::external_body]
pub struct ExDecodeError(base64::DecodeError);

/// The bytes that standard base64 (with padding) spells in `s`, or
/// `None` where `s` is no such encoding.
pub uninterp spec fn base64_decoded(s: Seq<char>) -> Option<Seq<u8>>;

/// Relies on `base64::Engine::decode` of `base64::prelude::BASE64_STANDARD`:
/// it fails or succeeds, and returns its bytes, by the input alone.
#[verifier::external_body]
fn decode_base64(s: &str) -> (r: Result<Vec<u8>, base64::DecodeError>)
    ensures
        r is Ok == base64_decoded(s@) is Some,
        r matches Ok(b) ==> b@ == base64_decoded(s@)->0,
{
    base64::Engine::decode(&base64::prelude::BASE64_STANDARD, s)
}

/// Relies on `String::from_utf8`: it accepts exactly the well-formed UTF-8
/// byte strings and decodes them.
#[verifier::external_body]
fn utf8_to_string(b: Vec<u8>) -> (r: Option<String>)
    ensures
        r is Some == valid_utf8(b@),
        r matches Some(t) ==> t@ == decode_utf8(b@),
{
    String::from_utf8(b).ok()
}

/// The text that a base64 payload carries: its bytes must decode and be
/// well-formed UTF-8.
pub open spec fn payload_text(p: Seq<char>) -> Option<Seq<char>> {
    match base64_decoded(p) {
        Some(b) => if valid_utf8(b) {
            Some(decode_utf8(b))
        } else {
            None
        },
        None => None,
    }
}

/// The big-endian unsigned number in the first four bytes of `b`.
pub open spec fn be_u32(b: Seq<u8>) -> u32
    recommends
        b.len() >= 4,
{
    (b[0] as int * 0x100_0000 + b[1] as int * 0x1_0000 + b[2] as int * 0x100 + b[3] as int) as u32
}

/// The number that a base64 payload carries in its first four bytes,
/// big-endian.
pub open spec fn payload_u32(p: Seq<char>) -> Option<u32> {
    match base64_decoded(p) {
        Some(b) => if b.len() >= 4 {
            Some(be_u32(b))
        } else {
            None
        },
        None => None,
    }
}

/// The bytes of a base64 payload, where it decodes.
pub fn decode_payload_bytes(p: &str) -> (r: Option<Vec<u8>>)
    ensures
        r is Some == base64_decoded(p@) is Some,
        r matches Some(b) ==> b@ == base64_decoded(p@)->0,
{
    match decode_base64(p) {
        Ok(b) => Some(b),
        Err(_) => None,
    }
}

/// The text of a base64 payload, where it decodes to UTF-8 text.
pub fn decode_payload_text(p: &str) -> (r: Option<String>)
    ensures
        r is Some == payload_text(p@) is Some,
        r matches Some(t) ==> t@ == payload_text(p@)->0,
{
    match decode_payload_bytes(p) {
        Some(b) => utf8_to_string(b),
        None => None,
    }
}

/// The big-endian number in the first four bytes of a base64 payload.
pub fn decode_payload_u32(p: &str) -> (r: Option<u32>)
    ensures
        r == payload_u32(p@),
{
    match decode_payload_bytes(p) {
        Some(b) => {
            if b.len() < 4 {
                return None;
            }
            let v = (b[0] as u32) * 0x100_0000 + (b[1] as u32) * 0x1_0000 + (b[2] as u32) * 0x100
                + (b[3] as u32);
            Some(v)
        },
        None => None,
    }
}

} // verus!
