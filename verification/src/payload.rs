//! Message payloads.
//!
//! A payload is a [`bytes::Bytes`] value. The connection never looks inside
//! one; it only carries payloads between the engine and the consumers. What
//! is stated here about `Bytes` is taken on trust from the `bytes` crate.
use vstd::prelude::*;

verus! {

/// `bytes::Bytes`, a cheaply cloneable chunk of contiguous memory. To the
/// verifier a value of it is opaque.
#[verifier::external_type_specification]
#[verifier::external_body]
pub struct ExBytes(bytes::Bytes);

/// The bytes that a payload holds, in order.
pub uninterp spec fn payload_bytes(payload: bytes::Bytes) -> Seq<u8>;

/// `Bytes::copy_from_slice`: a new payload that holds a copy of `data`.
#[verifier::external_body]
fn copy_payload(data: &[u8]) -> (payload: bytes::Bytes)
    ensures
        payload_bytes(payload) == data@,
{
    bytes::Bytes::copy_from_slice(data)
}

/// `Bytes::len`: the number of bytes that the payload holds.
#[verifier::external_body]
fn bytes_len(payload: &bytes::Bytes) -> (len: usize)
    ensures
        len == payload_bytes(*payload).len(),
{
    payload.len()
}

/// The payload of a message whose data the engine reports as `data`: none for
/// a message without data, else a copy of the data.
pub fn make_payload_from(data: &[u8]) -> (payload: Option<bytes::Bytes>)
    ensures
        payload is None <==> data@.len() == 0,
        payload matches Some(p) ==> payload_bytes(p) == data@,
{
    if data.len() == 0 {
        None
    } else {
        Some(copy_payload(data))
    }
}

/// Number of payload bytes of a message: zero where it has no payload.
pub fn payload_len(payload: &Option<bytes::Bytes>) -> (len: usize)
    ensures
        len == match *payload {
            Some(p) => payload_bytes(p).len(),
            None => 0,
        },
{
    match payload {
        Some(p) => bytes_len(p),
        None => 0,
    }
}

/// True if the engine can take the payload: it takes the length of a
/// payload as a 32-bit number, and the greatest such number is not a length.
pub fn payload_fits(payload: &Option<bytes::Bytes>) -> (fits: bool)
    ensures
        fits == match *payload {
            Some(p) => payload_bytes(p).len() < u32::MAX,
            None => true,
        },
{
    payload_len(payload) < (u32::MAX as usize)
}

} // verus!
