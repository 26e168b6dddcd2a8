//! Credentials: the namespaces that issuers hold, and their stored form.

use crate::error::DecodeError;
use crate::kind::RecordKind;
use crate::wire::{
    all_keys, concatenated, copy_range, keys_at, lemma_concatenated_keys,
    lemma_keys_at_concatenated, lemma_u32_from_le_roundtrip, lemma_u32_le_roundtrip, prefixed,
    push_bytes, push_prefixed, push_u32_le, read_key, read_u32_le, same_key, u32_from_le, u32_le,
};
use vstd::prelude::*;
use vstd::slice::axiom_spec_len;

verus! {

/// Bytes of a stored credential besides its name and its signers.
pub const CREDENTIAL_FIXED_LEN: usize = 41;

/// A credential: an issuer's namespace, with those who may sign under it.
#[derive(Clone, Debug)]
pub struct Credential {
    /// The identity that holds the credential.
    pub authority: [u8; 32],
    /// The name, which is a seed of the credential's address.
    pub name: Vec<u8>,
    /// The identities that may sign attestations under the credential.
    pub authorized_signers: Vec<[u8; 32]>,
}

/// A credential as plain values.
pub struct CredentialView {
    pub authority: Seq<u8>,
    pub name: Seq<u8>,
    pub authorized_signers: Seq<Seq<u8>>,
}

/// A list of keys as byte strings.
pub open spec fn key_list(keys: Seq<[u8; 32]>) -> Seq<Seq<u8>> {
    Seq::new(keys.len(), |i: int| keys[i]@)
}

impl CredentialView {
    /// Whether the fields have the sizes that the stored form can hold.
    pub open spec fn well_formed(self) -> bool {
        &&& self.authority.len() == 32
        &&& self.name.len() <= u32::MAX
        &&& self.authorized_signers.len() <= u32::MAX
        &&& all_keys(self.authorized_signers)
    }

    /// The stored form: `0 | authority | name | signer count | signers`.
    pub open spec fn encoded(self) -> Seq<u8> {
        seq![0u8] + self.authority + prefixed(self.name) + u32_le(
            self.authorized_signers.len() as u32,
        ) + concatenated(self.authorized_signers)
    }

    /// Whether `signer` may sign under the credential: the authority may,
    /// and so may every authorized signer.
    pub open spec fn allows(self, signer: Seq<u8>) -> bool {
        self.authority == signer || self.authorized_signers.contains(signer)
    }
}

/// What a buffer holds when it is read as a credential: the credential, or
/// the first fault found.
#[verifier::opaque]
pub open spec fn credential_decoding(b: Seq<u8>) -> Result<CredentialView, DecodeError> {
    if b.len() < 41 {
        Err(DecodeError::TooShort)
    } else if b[0] != 0 {
        Err(DecodeError::WrongDiscriminator)
    } else {
        let n = u32_from_le(b.subrange(33, 37));
        if 41 + n > b.len() {
            Err(DecodeError::LengthOverrun)
        } else {
            let count = u32_from_le(b.subrange(37 + n, 41 + n));
            if 41 + n + 32 * count > b.len() {
                Err(DecodeError::LengthOverrun)
            } else if 41 + n + 32 * count < b.len() {
                Err(DecodeError::TrailingBytes)
            } else {
                Ok(
                    CredentialView {
                        authority: b.subrange(1, 33),
                        name: b.subrange(37, 37 + n),
                        authorized_signers: keys_at(b, 41 + n, count as nat),
                    },
                )
            }
        }
    }
}

impl Credential {
    /// The credential as plain values.
    pub open spec fn view(&self) -> CredentialView {
        CredentialView {
            authority: self.authority@,
            name: self.name@,
            authorized_signers: key_list(self.authorized_signers@),
        }
    }

    /// The kind of this record.
    pub fn kind() -> (kind: RecordKind)
        ensures
            kind == RecordKind::Credential,
    {
        RecordKind::Credential
    }

    /// Whether `signer` may sign under the credential.
    pub fn allows(&self, signer: &[u8; 32]) -> (allowed: bool)
        ensures
            allowed == self@.allows(signer@),
    {
        if same_key(&self.authority, signer) {
            return true;
        }
        let mut i: usize = 0;
        while i < self.authorized_signers.len()
            invariant
                i <= self.authorized_signers@.len(),
                forall|j: int| 0 <= j < i ==> (#[trigger] self@.authorized_signers[j]) != signer@,
            decreases self.authorized_signers@.len() - i,
        {
            if same_key(&self.authorized_signers[i], signer) {
                assert(self@.authorized_signers[i as int] == signer@);
                return true;
            }
            i += 1;
        }
        false
    }

    /// The stored form of the credential.
    pub fn to_bytes(&self) -> (out: Vec<u8>)
        requires
            self.name@.len() <= u32::MAX,
            self.authorized_signers@.len() <= u32::MAX,
        ensures
            out@ == self@.encoded(),
            out@.len() == 41 + self.name@.len() + 32 * self.authorized_signers@.len(),
    {
        let mut out: Vec<u8> = Vec::new();
        out.push(0u8);
        push_bytes(&mut out, self.authority.as_slice());
        push_prefixed(&mut out, self.name.as_slice());
        push_u32_le(&mut out, self.authorized_signers.len() as u32);
        let ghost head = out@;
        let ghost signers = self@.authorized_signers;
        assert(head =~= seq![0u8] + self.authority@ + prefixed(self.name@) + u32_le(
            self.authorized_signers@.len() as u32,
        ));
        assert(signers.subrange(0, 0) =~= Seq::<Seq<u8>>::empty());
        let mut i: usize = 0;
        while i < self.authorized_signers.len()
            invariant
                i <= self.authorized_signers@.len(),
                signers == self@.authorized_signers,
                out@ == head + concatenated(signers.subrange(0, i as int)),
            decreases self.authorized_signers@.len() - i,
        {
            push_bytes(&mut out, self.authorized_signers[i].as_slice());
            proof {
                let upto = signers.subrange(0, i + 1);
                assert(upto.drop_last() =~= signers.subrange(0, i as int));
                assert(upto.last() == self.authorized_signers@[i as int]@);
                assert(out@ =~= head + concatenated(upto));
            }
            i += 1;
        }
        proof {
            assert(signers.subrange(0, i as int) =~= signers);
            assert(all_keys(signers));
            lemma_concatenated_keys(signers);
        }
        out
    }

    /// Reads a stored credential. A buffer that is too short, starts with
    /// another discriminator, announces more than it holds or holds more
    /// than it announces is refused, in that order of precedence.
    pub fn try_from_bytes(bytes: &[u8]) -> (r: Result<Credential, DecodeError>)
        ensures
            match r {
                Ok(credential) => credential_decoding(bytes@) == Ok::<
                    CredentialView,
                    DecodeError,
                >(credential@),
                Err(e) => credential_decoding(bytes@) == Err::<CredentialView, DecodeError>(e),
            },
    {
        proof {
            reveal(credential_decoding);
            axiom_spec_len(bytes);
        }
        if bytes.len() < CREDENTIAL_FIXED_LEN {
            return Err(DecodeError::TooShort);
        }
        if bytes[0] != 0 {
            return Err(DecodeError::WrongDiscriminator);
        }
        let announced: u32 = read_u32_le(bytes, 33);
        let room: usize = bytes.len() - CREDENTIAL_FIXED_LEN;
        if (announced as u64) > (room as u64) {
            return Err(DecodeError::LengthOverrun);
        }
        let n: usize = announced as usize;
        let count: u32 = read_u32_le(bytes, 37 + n);
        let left: u64 = (room - n) as u64;
        let wanted: u64 = 32 * (count as u64);
        if wanted > left {
            return Err(DecodeError::LengthOverrun);
        }
        if wanted < left {
            return Err(DecodeError::TrailingBytes);
        }
        let start: usize = 41 + n;
        let mut signers: Vec<[u8; 32]> = Vec::new();
        let mut i: usize = 0;
        while i < count as usize
            invariant
                i <= count,
                start + 32 * count == bytes@.len(),
                bytes@.len() <= usize::MAX,
                signers@.len() == i,
                forall|j: int|
                    0 <= j < i ==> (#[trigger] signers@[j])@ == bytes@.subrange(
                        start + 32 * j,
                        start + 32 * j + 32,
                    ),
            decreases count - i,
        {
            signers.push(read_key(bytes, start + 32 * i));
            i += 1;
        }
        let credential = Credential {
            authority: read_key(bytes, 1),
            name: copy_range(bytes, 37, 37 + n),
            authorized_signers: signers,
        };
        assert(credential@.authorized_signers =~= keys_at(bytes@, 41 + n, count as nat));
        Ok(credential)
    }
}

/// Decoding the stored form of a credential gives the credential back.
pub proof fn lemma_credential_roundtrip(c: CredentialView)
    requires
        c.well_formed(),
    ensures
        c.encoded().len() == 41 + c.name.len() + 32 * c.authorized_signers.len(),
        credential_decoding(c.encoded()) == Ok::<CredentialView, DecodeError>(c),
{
    reveal(credential_decoding);
    let b = c.encoded();
    let n = c.name.len() as u32;
    let count = c.authorized_signers.len() as u32;
    let tail = concatenated(c.authorized_signers);
    lemma_u32_le_roundtrip(n);
    lemma_u32_le_roundtrip(count);
    lemma_concatenated_keys(c.authorized_signers);
    assert(b.subrange(33, 37) =~= u32_le(n));
    assert(b.subrange(37 + n, 41 + n) =~= u32_le(count));
    assert(b.subrange(1, 33) =~= c.authority);
    assert(b.subrange(37, 37 + n) =~= c.name);
    assert forall|i: int| 0 <= i < count implies #[trigger] keys_at(b, 41 + n, count as nat)[i]
        == c.authorized_signers[i] by {
        assert(keys_at(tail, 0, count as nat)[i] == c.authorized_signers[i]);
        assert(b.subrange(41 + n + 32 * i, 41 + n + 32 * i + 32) =~= tail.subrange(
            32 * i,
            32 * i + 32,
        ));
    }
    assert(keys_at(b, 41 + n, count as nat) =~= c.authorized_signers);
}

/// A buffer that decodes as a credential is the stored form of that
/// credential.
pub proof fn lemma_credential_decoding_sound(b: Seq<u8>)
    requires
        credential_decoding(b) is Ok,
    ensures
        credential_decoding(b)->Ok_0.well_formed(),
        credential_decoding(b)->Ok_0.encoded() == b,
{
    reveal(credential_decoding);
    let c = credential_decoding(b)->Ok_0;
    let n = u32_from_le(b.subrange(33, 37));
    let count = u32_from_le(b.subrange(37 + n, 41 + n));
    lemma_u32_from_le_roundtrip(b.subrange(33, 37));
    lemma_u32_from_le_roundtrip(b.subrange(37 + n, 41 + n));
    lemma_keys_at_concatenated(b, 41 + n, count as nat);
    assert(prefixed(c.name) =~= b.subrange(33, 37 + n));
    assert(c.encoded() =~= b);
}

} // verus!
