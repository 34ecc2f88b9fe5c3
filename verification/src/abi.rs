//! The Ethereum-ABI forms of the payload and of the signed envelope, through
//! `alloy_sol_types`. A payload is the Solidity tuple `(string trader, int128
//! delta)`; an envelope is `(bytes20 eventId, bytes12 ordering, bytes payload)`.
use alloy_primitives::{Bytes, FixedBytes};
use alloy_sol_types::SolValue;
use crate::xdr::be_bytes;
use vstd::arithmetic::power2::pow2;
use vstd::prelude::*;
use vstd::utf8::encode_utf8;

verus! {

/// One trader's XLM delta, as the circuit emits it.
#[derive(Debug, Clone)]
pub struct HodlersPayload {
    pub trader: String,
    pub delta: i128,
}

/// A signed envelope around a payload.
#[derive(Debug)]
pub struct Envelope {
    pub event_id: [u8; 20],
    pub ordering: [u8; 12],
    pub payload: Vec<u8>,
}

/// A 32-byte ABI word holding `n` in two's complement, most significant byte
/// first.
pub open spec fn abi_word(n: int) -> Seq<u8> {
    be_bytes((n % (pow2(256) as int)) as nat, 32)
}

/// The ABI encoding (`SolValue::abi_encode`) of the tuple `(string, int128)`:
/// the offset of the tuple (32), the offset of the string within it (64), the
/// sign-extended integer, the string's byte length, and its UTF-8 bytes with
/// zero padding up to a multiple of 32 bytes.
pub open spec fn abi_of_payload(trader: Seq<char>, delta: i128) -> Seq<u8> {
    let b = encode_utf8(trader);
    abi_word(32) + abi_word(64) + abi_word(delta as int) + abi_word(b.len() as int) + b + Seq::new(
        ((32 - b.len() % 32) % 32) as nat,
        |i: int| 0u8,
    )
}

/// What `SolValue::abi_decode` gives for the tuple `(string, int128)`.
pub uninterp spec fn payload_of_abi(data: Seq<u8>) -> Option<(Seq<char>, i128)>;

/// What `SolValue::abi_decode` gives for the tuple `(bytes20, bytes12, bytes)`.
pub uninterp spec fn envelope_of_abi(data: Seq<u8>) -> Option<(Seq<u8>, Seq<u8>, Seq<u8>)>;

/// Encodes `(trader, delta)` with `alloy_sol_types`' `SolValue::abi_encode`,
/// which is also the encoding of a Solidity struct with these two fields:
/// the value is written as one token, a tuple whose string is placed after
/// its head, integers sign-extended to a word.
/// Beside the name of the result it states that `abi_decode` gives back what
/// was written: an ABI string holds the UTF-8 of the text, and an `int128`
/// word is read back as the value written into it.
#[verifier::external_body]
fn abi_encode_payload(trader: &String, delta: i128) -> (r: Vec<u8>)
    ensures
        r@ == abi_of_payload(trader@, delta),
        payload_of_abi(r@) == Some((trader@, delta)),
{
    (trader.clone(), delta).abi_encode()
}

/// Decodes `(string, int128)` with `alloy_sol_types`' `SolValue::abi_decode`;
/// the result is named, not described.
#[verifier::external_body]
fn abi_decode_payload(data: &[u8]) -> (r: Option<(String, i128)>)
    ensures
        r is None <==> payload_of_abi(data@) is None,
        r matches Some(p) ==> payload_of_abi(data@) == Some((p.0@, p.1)),
{
    <(String, i128)>::abi_decode(data).ok()
}

/// Decodes `(bytes20, bytes12, bytes)` with `alloy_sol_types`'
/// `SolValue::abi_decode`; the result is named, not described.
#[verifier::external_body]
fn abi_decode_envelope(data: &[u8]) -> (r: Option<([u8; 20], [u8; 12], Vec<u8>)>)
    ensures
        r is None <==> envelope_of_abi(data@) is None,
        r matches Some(e) ==> envelope_of_abi(data@) == Some((e.0@, e.1@, e.2@)),
{
    match <(FixedBytes<20>, FixedBytes<12>, Bytes)>::abi_decode(data) {
        Ok((id, ordering, payload)) => Some((id.0, ordering.0, payload.to_vec())),
        Err(_) => None,
    }
}

impl HodlersPayload {
    /// The ABI encoding of this payload, which decodes back to it.
    pub fn abi_encode(&self) -> (r: Vec<u8>)
        ensures
            r@ == abi_of_payload(self.trader@, self.delta),
            payload_of_abi(r@) == Some((self.trader@, self.delta)),
    {
        abi_encode_payload(&self.trader, self.delta)
    }

    /// Decodes a payload from its ABI encoding; `None` where the bytes are not
    /// one.
    pub fn abi_decode_from(payload: &[u8]) -> (r: Option<HodlersPayload>)
        ensures
            r is None <==> payload_of_abi(payload@) is None,
            r matches Some(p) ==> payload_of_abi(payload@) == Some((p.trader@, p.delta)),
    {
        match abi_decode_payload(payload) {
            Some((trader, delta)) => Some(HodlersPayload { trader, delta }),
            None => None,
        }
    }
}

impl Envelope {
    /// Decodes an envelope from its ABI encoding; `None` where the bytes are
    /// not one.
    pub fn abi_decode_from(data: &[u8]) -> (r: Option<Envelope>)
        ensures
            r is None <==> envelope_of_abi(data@) is None,
            r matches Some(e) ==> envelope_of_abi(data@) == Some((e.event_id@, e.ordering@, e.payload@)),
    {
        match abi_decode_envelope(data) {
            Some((event_id, ordering, payload)) => Some(Envelope { event_id, ordering, payload }),
            None => None,
        }
    }
}

} // verus!
