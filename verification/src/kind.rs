//! The four kinds of record, each with its seed tag and its discriminator.

use vstd::prelude::*;

verus! {

/// The kind of a record. The kind fixes the first seed of the record's
/// address and the first byte of its stored form.
#[derive(Clone, Copy, Debug, PartialEq, Eq, Structural)]
pub enum RecordKind {
    Credential,
    Schema,
    Attestation,
    Request,
}

impl RecordKind {
    /// The bytes of the kind's name, the first seed of every address of this kind.
    pub open spec fn tag(self) -> Seq<u8> {
        match self {
            RecordKind::Credential => seq![99u8, 114, 101, 100, 101, 110, 116, 105, 97, 108],
            RecordKind::Schema => seq![115u8, 99, 104, 101, 109, 97],
            RecordKind::Attestation => seq![97u8, 116, 116, 101, 115, 116, 97, 116, 105, 111, 110],
            RecordKind::Request => seq![114u8, 101, 113, 117, 101, 115, 116],
        }
    }

    /// The byte that a stored record of this kind starts with.
    pub open spec fn discriminator(self) -> u8 {
        match self {
            RecordKind::Credential => 0,
            RecordKind::Schema => 1,
            RecordKind::Attestation => 2,
            RecordKind::Request => 3,
        }
    }

    /// The kind's seed tag: `credential`, `schema`, `attestation` or `request`.
    pub fn seed_tag(&self) -> (tag: Vec<u8>)
        ensures
            tag@ == self.tag(),
    {
        let tag: Vec<u8> = match self {
            RecordKind::Credential => vec![99u8, 114, 101, 100, 101, 110, 116, 105, 97, 108],
            RecordKind::Schema => vec![115u8, 99, 104, 101, 109, 97],
            RecordKind::Attestation => vec![97u8, 116, 116, 101, 115, 116, 97, 116, 105, 111, 110],
            RecordKind::Request => vec![114u8, 101, 113, 117, 101, 115, 116],
        };
        assert(tag@ =~= self.tag());
        tag
    }

    /// The byte that a stored record of this kind starts with.
    pub fn discriminator_byte(&self) -> (byte: u8)
        ensures
            byte == self.discriminator(),
    {
        match self {
            RecordKind::Credential => 0,
            RecordKind::Schema => 1,
            RecordKind::Attestation => 2,
            RecordKind::Request => 3,
        }
    }

    /// The kind that a discriminator byte names, if it names one.
    pub fn from_discriminator(byte: u8) -> (kind: Option<RecordKind>)
        ensures
            byte > 3 ==> kind is None,
            byte <= 3 ==> kind is Some && kind->0.discriminator() == byte,
    {
        if byte == 0 {
            Some(RecordKind::Credential)
        } else if byte == 1 {
            Some(RecordKind::Schema)
        } else if byte == 2 {
            Some(RecordKind::Attestation)
        } else if byte == 3 {
            Some(RecordKind::Request)
        } else {
            None
        }
    }
}

/// Two kinds with the same discriminator, or with the same seed tag, are the
/// same kind.
pub proof fn lemma_kinds_are_told_apart(a: RecordKind, b: RecordKind)
    ensures
        a.discriminator() == b.discriminator() ==> a == b,
        a.tag() == b.tag() ==> a == b,
        a.tag().len() == b.tag().len() ==> a == b,
{
}

} // verus!
