//! The payload of the record-creating instructions, read in place.
//!
//! A payload is laid out as `nonce[32] | data_len:u32-LE | data[data_len] |
//! expiry:i64-LE`. [`CreateRequestArgs`] wraps a borrowed buffer only after
//! its length has been checked against that layout, and its accessors then
//! hand out sub-ranges of the buffer without copying.

use crate::error::RegistryError;
use crate::wire::{
    i64_from_le, i64_le, lemma_i64_le_roundtrip, lemma_u32_le_roundtrip, prefixed, push_bytes,
    push_i64_le, push_prefixed, read_i64_le, read_u32_le, u32_from_le, u32_le,
};
use vstd::prelude::*;
use vstd::slice::{axiom_spec_len, slice_subrange};

verus! {

/// Bytes before the data: the nonce and the length prefix.
pub const PAYLOAD_HEADER_LEN: usize = 36;

/// Bytes after the data: the expiry.
pub const PAYLOAD_TRAILER_LEN: usize = 8;

/// What a payload says, as plain values.
pub struct Payload {
    pub nonce: Seq<u8>,
    pub data: Seq<u8>,
    pub expiry: i64,
}

/// The length that the payload announces for its data.
pub open spec fn payload_data_len(bytes: Seq<u8>) -> int {
    u32_from_le(bytes.subrange(32, 36))
}

/// Whether `bytes` is long enough for its header, and for the data that the
/// header announces together with the expiry behind it.
pub open spec fn payload_well_formed(bytes: Seq<u8>) -> bool {
    &&& bytes.len() >= 36
    &&& 36 + payload_data_len(bytes) + 8 <= bytes.len()
}

/// What a well-formed payload says.
pub open spec fn payload_of(bytes: Seq<u8>) -> Payload {
    let n = payload_data_len(bytes);
    Payload {
        nonce: bytes.subrange(0, 32),
        data: bytes.subrange(36, 36 + n),
        expiry: i64_from_le(bytes.subrange(36 + n, 44 + n)) as i64,
    }
}

/// The payload that says `p`.
pub open spec fn payload_bytes(p: Payload) -> Seq<u8> {
    p.nonce + prefixed(p.data) + i64_le(p.expiry)
}

/// A validated view of an instruction payload.
pub struct CreateRequestArgs<'a> {
    raw: &'a [u8],
}

/// The first 32 bytes of a slice as an array reference, through
/// `<[u8]>::first_chunk`: `None` when the slice is shorter than that.
#[verifier::external_body]
fn first_key<'a>(bytes: &'a [u8]) -> (key: Option<&'a [u8; 32]>)
    ensures
        bytes@.len() >= 32 ==> key is Some && key->0@ == bytes@.subrange(0, 32),
        bytes@.len() < 32 ==> key is None,
{
    bytes.first_chunk::<32>()
}

impl<'a> CreateRequestArgs<'a> {
    #[verifier::type_invariant]
    spec fn checked(self) -> bool {
        payload_well_formed(self.raw@)
    }

    /// The buffer that was wrapped.
    pub closed spec fn bytes(self) -> Seq<u8> {
        self.raw@
    }

    /// What the payload says.
    pub open spec fn view(self) -> Payload {
        payload_of(self.bytes())
    }

    /// Wraps `bytes` if they hold a whole payload, and rejects them otherwise:
    /// a buffer shorter than the 36-byte header, or shorter than the header,
    /// the announced data and the 8-byte expiry together.
    pub fn try_from_bytes(bytes: &'a [u8]) -> (r: Result<CreateRequestArgs<'a>, RegistryError>)
        ensures
            payload_well_formed(bytes@) ==> r is Ok && r->Ok_0.bytes() == bytes@,
            !payload_well_formed(bytes@) ==> r == Err::<CreateRequestArgs<'a>, RegistryError>(
                RegistryError::InvalidInstructionData,
            ),
    {
        if bytes.len() < PAYLOAD_HEADER_LEN {
            return Err(RegistryError::InvalidInstructionData);
        }
        let data_len: u32 = read_u32_le(bytes, 32);
        let rest: usize = bytes.len() - PAYLOAD_HEADER_LEN;
        if rest < PAYLOAD_TRAILER_LEN {
            return Err(RegistryError::InvalidInstructionData);
        }
        if (data_len as u64) > ((rest - PAYLOAD_TRAILER_LEN) as u64) {
            return Err(RegistryError::InvalidInstructionData);
        }
        Ok(CreateRequestArgs { raw: bytes })
    }

    /// The nonce: the first 32 bytes of the buffer.
    pub fn nonce(&self) -> (r: Result<&'a [u8; 32], RegistryError>)
        ensures
            r is Ok,
            r->Ok_0@ == self@.nonce,
    {
        proof {
            use_type_invariant(self);
        }
        match first_key(self.raw) {
            Some(key) => Ok(key),
            None => Err(RegistryError::InvalidInstructionData),
        }
    }

    /// The length that the payload announces for its data.
    pub fn _data_len(&self) -> (n: usize)
        ensures
            n == self@.data.len(),
            n == payload_data_len(self.bytes()),
    {
        proof {
            use_type_invariant(self);
            axiom_spec_len(self.raw);
        }
        read_u32_le(self.raw, 32) as usize
    }

    /// The data: the announced number of bytes behind the length prefix.
    pub fn data(&self) -> (r: Result<&'a [u8], RegistryError>)
        ensures
            r is Ok,
            r->Ok_0@ == self@.data,
    {
        proof {
            use_type_invariant(self);
            axiom_spec_len(self.raw);
        }
        let len: usize = self._data_len();
        Ok(slice_subrange(self.raw, PAYLOAD_HEADER_LEN, PAYLOAD_HEADER_LEN + len))
    }

    /// The expiry: the eight bytes behind the data, as a signed Unix time.
    pub fn expiry(&self) -> (r: Result<i64, RegistryError>)
        ensures
            r == Ok::<i64, RegistryError>(self@.expiry),
    {
        proof {
            use_type_invariant(self);
            axiom_spec_len(self.raw);
        }
        let len: usize = self._data_len();
        Ok(read_i64_le(self.raw, PAYLOAD_HEADER_LEN + len))
    }
}

/// Lays out a payload: the nonce, the data behind its length, the expiry.
pub fn encode_payload(nonce: &[u8; 32], data: &[u8], expiry: i64) -> (out: Vec<u8>)
    requires
        data@.len() <= u32::MAX,
    ensures
        out@ == payload_bytes(Payload { nonce: nonce@, data: data@, expiry }),
{
    let mut out: Vec<u8> = Vec::new();
    push_bytes(&mut out, nonce.as_slice());
    push_prefixed(&mut out, data);
    push_i64_le(&mut out, expiry);
    assert(out@ =~= nonce@ + prefixed(data@) + i64_le(expiry));
    out
}

/// Every buffer that is too short for its header, or for what its header
/// announces, is rejected: the reader never looks past the end of a buffer.
pub proof fn lemma_short_payload_rejected(bytes: Seq<u8>)
    ensures
        bytes.len() < 36 ==> !payload_well_formed(bytes),
        bytes.len() >= 36 && 36 + payload_data_len(bytes) + 8 > bytes.len()
            ==> !payload_well_formed(bytes),
        payload_well_formed(bytes) ==> {
            &&& 0 <= payload_data_len(bytes) <= u32::MAX
            &&& 36 + payload_data_len(bytes) + 8 <= bytes.len()
        },
{
}

/// A payload that was laid out from `p` is well formed and reads back as `p`.
pub proof fn lemma_payload_roundtrip(p: Payload)
    requires
        p.nonce.len() == 32,
        p.data.len() <= u32::MAX,
    ensures
        payload_well_formed(payload_bytes(p)),
        payload_of(payload_bytes(p)) == p,
{
    let bytes = payload_bytes(p);
    let n = p.data.len() as u32;
    lemma_u32_le_roundtrip(n);
    lemma_i64_le_roundtrip(p.expiry);
    assert(bytes.subrange(32, 36) =~= u32_le(n));
    assert(bytes.subrange(0, 32) =~= p.nonce);
    assert(bytes.subrange(36, 36 + n) =~= p.data);
    assert(bytes.subrange(36 + n, 44 + n) =~= i64_le(p.expiry));
}

} // verus!
