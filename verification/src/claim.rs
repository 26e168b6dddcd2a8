//! Attestations and requests, the two kinds of claim, and their stored form.
//!
//! Both are stored as a discriminator, three keys, the data behind its
//! length, a fourth key and the expiry. Which field stands where differs:
//! an attestation is `nonce, credential, schema | data | signer, expiry`, a
//! request is `credential, schema, signer | data | nonce, expiry`.

use crate::error::DecodeError;
use crate::kind::RecordKind;
use crate::wire::{
    i64_from_le, i64_le, lemma_i64_from_le_roundtrip, lemma_i64_le_roundtrip,
    lemma_u32_from_le_roundtrip, lemma_u32_le_roundtrip, prefixed, push_bytes, push_i64_le,
    push_prefixed, read_i64_le, read_key, read_u32_le, copy_range, u32_from_le, u32_le,
};
use vstd::prelude::*;
use vstd::slice::axiom_spec_len;

verus! {

/// Bytes of a stored claim besides its data.
pub const CLAIM_FIXED_LEN: usize = 141;

/// A stored claim by position: the discriminator, the three keys before the
/// data, the data, the key behind it, the expiry.
pub struct Frame {
    pub tag: u8,
    pub first: Seq<u8>,
    pub second: Seq<u8>,
    pub third: Seq<u8>,
    pub data: Seq<u8>,
    pub fourth: Seq<u8>,
    pub expiry: i64,
}

impl Frame {
    /// Whether the keys are keys and the data fits its length prefix.
    pub open spec fn well_formed(self) -> bool {
        &&& self.first.len() == 32
        &&& self.second.len() == 32
        &&& self.third.len() == 32
        &&& self.fourth.len() == 32
        &&& self.data.len() <= u32::MAX
    }

    /// The stored form.
    pub open spec fn encoded(self) -> Seq<u8> {
        seq![self.tag] + self.first + self.second + self.third + prefixed(self.data) + self.fourth
            + i64_le(self.expiry)
    }
}

/// What a buffer holds when it is read as a claim with discriminator `tag`:
/// the claim, or the first fault found.
#[verifier::opaque]
pub open spec fn frame_decoding(tag: u8, b: Seq<u8>) -> Result<Frame, DecodeError> {
    if b.len() < 141 {
        Err(DecodeError::TooShort)
    } else if b[0] != tag {
        Err(DecodeError::WrongDiscriminator)
    } else {
        let n = u32_from_le(b.subrange(97, 101));
        if 141 + n > b.len() {
            Err(DecodeError::LengthOverrun)
        } else if 141 + n < b.len() {
            Err(DecodeError::TrailingBytes)
        } else {
            Ok(
                Frame {
                    tag,
                    first: b.subrange(1, 33),
                    second: b.subrange(33, 65),
                    third: b.subrange(65, 97),
                    data: b.subrange(101, 101 + n),
                    fourth: b.subrange(101 + n, 133 + n),
                    expiry: i64_from_le(b.subrange(133 + n, 141 + n)) as i64,
                },
            )
        }
    }
}

/// A claim that was stored reads back as itself.
pub proof fn lemma_frame_roundtrip(f: Frame)
    requires
        f.well_formed(),
    ensures
        f.encoded().len() == 141 + f.data.len(),
        frame_decoding(f.tag, f.encoded()) == Ok::<Frame, DecodeError>(f),
{
    reveal(frame_decoding);
    let b = f.encoded();
    let n = f.data.len() as u32;
    lemma_u32_le_roundtrip(n);
    lemma_i64_le_roundtrip(f.expiry);
    assert(b.subrange(97, 101) =~= u32_le(n));
    assert(b.subrange(1, 33) =~= f.first);
    assert(b.subrange(33, 65) =~= f.second);
    assert(b.subrange(65, 97) =~= f.third);
    assert(b.subrange(101, 101 + n) =~= f.data);
    assert(b.subrange(101 + n, 133 + n) =~= f.fourth);
    assert(b.subrange(133 + n, 141 + n) =~= i64_le(f.expiry));
}

/// A buffer that reads as a claim is the stored form of that claim, and of
/// no other.
pub proof fn lemma_frame_decoding_sound(tag: u8, b: Seq<u8>)
    requires
        frame_decoding(tag, b) is Ok,
    ensures
        frame_decoding(tag, b)->Ok_0.well_formed(),
        frame_decoding(tag, b)->Ok_0.tag == tag,
        frame_decoding(tag, b)->Ok_0.encoded() == b,
{
    reveal(frame_decoding);
    let f = frame_decoding(tag, b)->Ok_0;
    let n = u32_from_le(b.subrange(97, 101));
    lemma_u32_from_le_roundtrip(b.subrange(97, 101));
    lemma_i64_from_le_roundtrip(b.subrange(133 + n, 141 + n));
    assert(prefixed(f.data) =~= b.subrange(97, 101 + n));
    assert(i64_le(f.expiry) =~= b.subrange(133 + n, 141 + n));
    assert(f.encoded() =~= b);
}

/// An attestation: a signed claim about the recipient that `nonce` names.
#[derive(Clone, Debug)]
pub struct Attestation {
    /// The recipient, which is also the seed that tells attestations apart.
    pub nonce: [u8; 32],
    /// The credential that the claim is issued under.
    pub credential: [u8; 32],
    /// The schema that says how to read `data`.
    pub schema: [u8; 32],
    /// The claim itself.
    pub data: Vec<u8>,
    /// Who authorised the claim.
    pub signer: [u8; 32],
    /// The Unix time from which the claim no longer holds.
    pub expiry: i64,
}

/// An attestation as plain values.
pub struct AttestationView {
    pub nonce: Seq<u8>,
    pub credential: Seq<u8>,
    pub schema: Seq<u8>,
    pub data: Seq<u8>,
    pub signer: Seq<u8>,
    pub expiry: i64,
}

impl AttestationView {
    /// The attestation by position.
    pub open spec fn frame(self) -> Frame {
        Frame {
            tag: 2,
            first: self.nonce,
            second: self.credential,
            third: self.schema,
            data: self.data,
            fourth: self.signer,
            expiry: self.expiry,
        }
    }

    /// Whether the fields have the sizes that the stored form can hold.
    pub open spec fn well_formed(self) -> bool {
        self.frame().well_formed()
    }

    /// The stored form: `2 | nonce | credential | schema | data | signer | expiry`.
    pub open spec fn encoded(self) -> Seq<u8> {
        self.frame().encoded()
    }

    /// The attestation that stands at the positions of `f`.
    pub open spec fn of_frame(f: Frame) -> AttestationView {
        AttestationView {
            nonce: f.first,
            credential: f.second,
            schema: f.third,
            data: f.data,
            signer: f.fourth,
            expiry: f.expiry,
        }
    }
}

/// What a buffer holds when it is read as an attestation.
pub open spec fn attestation_decoding(b: Seq<u8>) -> Result<AttestationView, DecodeError> {
    match frame_decoding(2, b) {
        Ok(f) => Ok(AttestationView::of_frame(f)),
        Err(e) => Err(e),
    }
}

/// A request: the draft of a claim, made before it is issued.
#[derive(Clone, Debug)]
pub struct Request {
    /// The credential that the claim is asked under.
    pub credential: [u8; 32],
    /// The schema that says how to read `data`.
    pub schema: [u8; 32],
    /// Who created the request and paid for it.
    pub signer: [u8; 32],
    /// The recipient, which is also the seed that tells requests apart.
    pub nonce: [u8; 32],
    /// The claim itself.
    pub data: Vec<u8>,
    /// The Unix time from which the claim no longer holds.
    pub expiry: i64,
}

/// A request as plain values.
pub struct RequestView {
    pub credential: Seq<u8>,
    pub schema: Seq<u8>,
    pub signer: Seq<u8>,
    pub nonce: Seq<u8>,
    pub data: Seq<u8>,
    pub expiry: i64,
}

impl RequestView {
    /// The request by position.
    pub open spec fn frame(self) -> Frame {
        Frame {
            tag: 3,
            first: self.credential,
            second: self.schema,
            third: self.signer,
            data: self.data,
            fourth: self.nonce,
            expiry: self.expiry,
        }
    }

    /// Whether the fields have the sizes that the stored form can hold.
    pub open spec fn well_formed(self) -> bool {
        self.frame().well_formed()
    }

    /// The stored form: `3 | credential | schema | signer | data | nonce | expiry`.
    pub open spec fn encoded(self) -> Seq<u8> {
        self.frame().encoded()
    }

    /// The request that stands at the positions of `f`.
    pub open spec fn of_frame(f: Frame) -> RequestView {
        RequestView {
            credential: f.first,
            schema: f.second,
            signer: f.third,
            nonce: f.fourth,
            data: f.data,
            expiry: f.expiry,
        }
    }
}

/// What a buffer holds when it is read as a request.
pub open spec fn request_decoding(b: Seq<u8>) -> Result<RequestView, DecodeError> {
    match frame_decoding(3, b) {
        Ok(f) => Ok(RequestView::of_frame(f)),
        Err(e) => Err(e),
    }
}

/// The fields of a claim in the order of the stored form.
struct Fields {
    first: [u8; 32],
    second: [u8; 32],
    third: [u8; 32],
    data: Vec<u8>,
    fourth: [u8; 32],
    expiry: i64,
}

impl Fields {
    spec fn frame(self, tag: u8) -> Frame {
        Frame {
            tag,
            first: self.first@,
            second: self.second@,
            third: self.third@,
            data: self.data@,
            fourth: self.fourth@,
            expiry: self.expiry,
        }
    }
}

/// Lays out a claim.
fn write_frame(
    tag: u8,
    first: &[u8; 32],
    second: &[u8; 32],
    third: &[u8; 32],
    data: &[u8],
    fourth: &[u8; 32],
    expiry: i64,
) -> (out: Vec<u8>)
    requires
        data@.len() <= u32::MAX,
    ensures
        out@ == (Frame {
            tag,
            first: first@,
            second: second@,
            third: third@,
            data: data@,
            fourth: fourth@,
            expiry,
        }).encoded(),
{
    let mut out: Vec<u8> = Vec::new();
    out.push(tag);
    push_bytes(&mut out, first.as_slice());
    push_bytes(&mut out, second.as_slice());
    push_bytes(&mut out, third.as_slice());
    push_prefixed(&mut out, data);
    push_bytes(&mut out, fourth.as_slice());
    push_i64_le(&mut out, expiry);
    assert(out@ =~= seq![tag] + first@ + second@ + third@ + prefixed(data@) + fourth@ + i64_le(
        expiry,
    ));
    out
}

/// Reads a claim with discriminator `tag`.
fn read_frame(tag: u8, bytes: &[u8]) -> (r: Result<Fields, DecodeError>)
    ensures
        match r {
            Ok(fields) => frame_decoding(tag, bytes@) == Ok::<Frame, DecodeError>(
                fields.frame(tag),
            ),
            Err(e) => frame_decoding(tag, bytes@) == Err::<Frame, DecodeError>(e),
        },
{
    proof {
        reveal(frame_decoding);
        axiom_spec_len(bytes);
    }
    if bytes.len() < CLAIM_FIXED_LEN {
        return Err(DecodeError::TooShort);
    }
    if bytes[0] != tag {
        return Err(DecodeError::WrongDiscriminator);
    }
    let announced: u32 = read_u32_le(bytes, 97);
    let room: usize = bytes.len() - CLAIM_FIXED_LEN;
    if (announced as u64) > (room as u64) {
        return Err(DecodeError::LengthOverrun);
    }
    if (announced as u64) < (room as u64) {
        return Err(DecodeError::TrailingBytes);
    }
    let n: usize = announced as usize;
    Ok(
        Fields {
            first: read_key(bytes, 1),
            second: read_key(bytes, 33),
            third: read_key(bytes, 65),
            data: copy_range(bytes, 101, 101 + n),
            fourth: read_key(bytes, 101 + n),
            expiry: read_i64_le(bytes, 133 + n),
        },
    )
}

impl Attestation {
    /// The attestation as plain values.
    pub open spec fn view(&self) -> AttestationView {
        AttestationView {
            nonce: self.nonce@,
            credential: self.credential@,
            schema: self.schema@,
            data: self.data@,
            signer: self.signer@,
            expiry: self.expiry,
        }
    }

    /// The kind of this record.
    pub fn kind() -> (kind: RecordKind)
        ensures
            kind == RecordKind::Attestation,
    {
        RecordKind::Attestation
    }

    /// The number of bytes that an attestation with `data_len` bytes of data
    /// is stored in, if that number can be counted.
    pub fn space(data_len: usize) -> (space: Option<usize>)
        ensures
            141 + data_len <= usize::MAX ==> space == Some((141 + data_len) as usize),
            141 + data_len > usize::MAX ==> space is None,
    {
        data_len.checked_add(CLAIM_FIXED_LEN)
    }

    /// The stored form of the attestation.
    pub fn to_bytes(&self) -> (out: Vec<u8>)
        requires
            self.data@.len() <= u32::MAX,
        ensures
            out@ == self@.encoded(),
            out@.len() == 141 + self.data@.len(),
    {
        proof {
            lemma_frame_roundtrip(self@.frame());
        }
        write_frame(
            2,
            &self.nonce,
            &self.credential,
            &self.schema,
            self.data.as_slice(),
            &self.signer,
            self.expiry,
        )
    }

    /// Reads a stored attestation. A buffer that is too short, starts with
    /// another discriminator, announces more data than it holds or holds
    /// more than it announces is refused, in that order of precedence.
    pub fn try_from_bytes(bytes: &[u8]) -> (r: Result<Attestation, DecodeError>)
        ensures
            match r {
                Ok(attestation) => attestation_decoding(bytes@) == Ok::<
                    AttestationView,
                    DecodeError,
                >(attestation@),
                Err(e) => attestation_decoding(bytes@) == Err::<AttestationView, DecodeError>(e),
            },
    {
        match read_frame(2, bytes) {
            Ok(fields) => Ok(
                Attestation {
                    nonce: fields.first,
                    credential: fields.second,
                    schema: fields.third,
                    data: fields.data,
                    signer: fields.fourth,
                    expiry: fields.expiry,
                },
            ),
            Err(e) => Err(e),
        }
    }
}

impl Request {
    /// The request as plain values.
    pub open spec fn view(&self) -> RequestView {
        RequestView {
            credential: self.credential@,
            schema: self.schema@,
            signer: self.signer@,
            nonce: self.nonce@,
            data: self.data@,
            expiry: self.expiry,
        }
    }

    /// The kind of this record.
    pub fn kind() -> (kind: RecordKind)
        ensures
            kind == RecordKind::Request,
    {
        RecordKind::Request
    }

    /// The number of bytes that a request with `data_len` bytes of data is
    /// stored in, `1 + 32 + 32 + 32 + (4 + data_len) + 32 + 8`, if that
    /// number can be counted.
    pub fn space(data_len: usize) -> (space: Option<usize>)
        ensures
            141 + data_len <= usize::MAX ==> space == Some((141 + data_len) as usize),
            141 + data_len > usize::MAX ==> space is None,
    {
        data_len.checked_add(CLAIM_FIXED_LEN)
    }

    /// The stored form of the request.
    pub fn to_bytes(&self) -> (out: Vec<u8>)
        requires
            self.data@.len() <= u32::MAX,
        ensures
            out@ == self@.encoded(),
            out@.len() == 141 + self.data@.len(),
    {
        proof {
            lemma_frame_roundtrip(self@.frame());
        }
        write_frame(
            3,
            &self.credential,
            &self.schema,
            &self.signer,
            self.data.as_slice(),
            &self.nonce,
            self.expiry,
        )
    }

    /// Reads a stored request. A buffer that is too short, starts with
    /// another discriminator, announces more data than it holds or holds
    /// more than it announces is refused, in that order of precedence.
    pub fn try_from_bytes(bytes: &[u8]) -> (r: Result<Request, DecodeError>)
        ensures
            match r {
                Ok(request) => request_decoding(bytes@) == Ok::<RequestView, DecodeError>(
                    request@,
                ),
                Err(e) => request_decoding(bytes@) == Err::<RequestView, DecodeError>(e),
            },
    {
        match read_frame(3, bytes) {
            Ok(fields) => Ok(
                Request {
                    credential: fields.first,
                    schema: fields.second,
                    signer: fields.third,
                    nonce: fields.fourth,
                    data: fields.data,
                    expiry: fields.expiry,
                },
            ),
            Err(e) => Err(e),
        }
    }
}

/// Decoding the stored form of an attestation gives the attestation back.
pub proof fn lemma_attestation_roundtrip(a: AttestationView)
    requires
        a.well_formed(),
    ensures
        attestation_decoding(a.encoded()) == Ok::<AttestationView, DecodeError>(a),
{
    lemma_frame_roundtrip(a.frame());
}

/// A buffer that decodes as an attestation is the stored form of that
/// attestation.
pub proof fn lemma_attestation_decoding_sound(b: Seq<u8>)
    requires
        attestation_decoding(b) is Ok,
    ensures
        attestation_decoding(b)->Ok_0.well_formed(),
        attestation_decoding(b)->Ok_0.encoded() == b,
{
    lemma_frame_decoding_sound(2, b);
}

/// Decoding the stored form of a request gives the request back.
pub proof fn lemma_request_roundtrip(r: RequestView)
    requires
        r.well_formed(),
    ensures
        request_decoding(r.encoded()) == Ok::<RequestView, DecodeError>(r),
{
    lemma_frame_roundtrip(r.frame());
}

/// A buffer that decodes as a request is the stored form of that request.
pub proof fn lemma_request_decoding_sound(b: Seq<u8>)
    requires
        request_decoding(b) is Ok,
    ensures
        request_decoding(b)->Ok_0.well_formed(),
        request_decoding(b)->Ok_0.encoded() == b,
{
    lemma_frame_decoding_sound(3, b);
}

/// A stored record of one kind never decodes as a claim of another kind.
pub proof fn lemma_claims_are_told_apart(b: Seq<u8>)
    ensures
        !(attestation_decoding(b) is Ok && request_decoding(b) is Ok),
        b.len() >= 141 && b[0] != 2 ==> attestation_decoding(b) == Err::<
            AttestationView,
            DecodeError,
        >(DecodeError::WrongDiscriminator),
        b.len() >= 141 && b[0] != 3 ==> request_decoding(b) == Err::<RequestView, DecodeError>(
            DecodeError::WrongDiscriminator,
        ),
{
    reveal(frame_decoding);
}

} // verus!
