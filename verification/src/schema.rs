//! Schemas: the typed shapes of claims, and their stored form.

use crate::error::DecodeError;
use crate::kind::RecordKind;
use crate::wire::{
    lemma_prefixed_len, lemma_regroup, lemma_take_prefixed_sound, lemma_take_prefixed_written, lemma_u32_from_le_roundtrip,
    lemma_u32_le_roundtrip, prefixed, push_bytes, push_prefixed, push_u32_le, read_key,
    read_prefixed, read_u32_le, take_prefixed, u32_from_le, u32_le,
};
use vstd::prelude::*;
use vstd::slice::axiom_spec_len;

verus! {

/// Bytes of a stored schema besides the contents of its four byte strings.
pub const SCHEMA_FIXED_LEN: usize = 54;

/// A schema: how the data of the claims under one credential is laid out.
#[derive(Clone, Debug)]
pub struct Schema {
    /// The credential that the schema belongs to.
    pub credential: [u8; 32],
    /// The version of the schema.
    pub version: u32,
    /// Whether new claims against the schema are refused.
    pub is_paused: bool,
    /// The name, which is a seed of the schema's address.
    pub name: Vec<u8>,
    /// What the schema is for, in words.
    pub description: Vec<u8>,
    /// One type tag for each field of a claim.
    pub layout: Vec<u8>,
    /// The names of the fields, each behind its length, one behind the other.
    pub field_names: Vec<u8>,
}

/// A schema as plain values.
pub struct SchemaView {
    pub credential: Seq<u8>,
    pub version: u32,
    pub is_paused: bool,
    pub name: Seq<u8>,
    pub description: Seq<u8>,
    pub layout: Seq<u8>,
    pub field_names: Seq<u8>,
}

/// The byte that stands for a flag.
pub open spec fn flag_byte(flag: bool) -> u8 {
    if flag {
        1
    } else {
        0
    }
}

impl SchemaView {
    /// Whether the fields have the sizes that the stored form can hold.
    pub open spec fn well_formed(self) -> bool {
        &&& self.credential.len() == 32
        &&& self.name.len() <= u32::MAX
        &&& self.description.len() <= u32::MAX
        &&& self.layout.len() <= u32::MAX
        &&& self.field_names.len() <= u32::MAX
    }

    /// The fixed part of the stored form: `1 | credential | version | is_paused`.
    pub open spec fn head(self) -> Seq<u8> {
        seq![1u8] + self.credential + u32_le(self.version) + seq![flag_byte(self.is_paused)]
    }

    /// The stored form: the fixed part, then name, description, layout and
    /// field names, each behind its length.
    pub open spec fn encoded(self) -> Seq<u8> {
        self.head() + prefixed(self.name) + prefixed(self.description) + prefixed(self.layout)
            + prefixed(self.field_names)
    }
}

/// What a buffer holds when it is read as a schema: the schema, or the
/// first fault found.
#[verifier::opaque]
pub open spec fn schema_decoding(b: Seq<u8>) -> Result<SchemaView, DecodeError> {
    if b.len() < 54 {
        Err(DecodeError::TooShort)
    } else if b[0] != 1 {
        Err(DecodeError::WrongDiscriminator)
    } else if b[37] > 1 {
        Err(DecodeError::InvalidFlag)
    } else {
        match take_prefixed(b, 38) {
            None => Err(DecodeError::LengthOverrun),
            Some((name, after_name)) => match take_prefixed(b, after_name) {
                None => Err(DecodeError::LengthOverrun),
                Some((description, after_description)) => match take_prefixed(
                    b,
                    after_description,
                ) {
                    None => Err(DecodeError::LengthOverrun),
                    Some((layout, after_layout)) => match take_prefixed(b, after_layout) {
                        None => Err(DecodeError::LengthOverrun),
                        Some((field_names, end)) => if end < b.len() {
                            Err(DecodeError::TrailingBytes)
                        } else {
                            Ok(
                                SchemaView {
                                    credential: b.subrange(1, 33),
                                    version: u32_from_le(b.subrange(33, 37)) as u32,
                                    is_paused: b[37] == 1,
                                    name,
                                    description,
                                    layout,
                                    field_names,
                                },
                            )
                        },
                    },
                },
            },
        }
    }
}

impl Schema {
    /// The schema as plain values.
    pub open spec fn view(&self) -> SchemaView {
        SchemaView {
            credential: self.credential@,
            version: self.version,
            is_paused: self.is_paused,
            name: self.name@,
            description: self.description@,
            layout: self.layout@,
            field_names: self.field_names@,
        }
    }

    /// The kind of this record.
    pub fn kind() -> (kind: RecordKind)
        ensures
            kind == RecordKind::Schema,
    {
        RecordKind::Schema
    }

    /// The stored form of the schema.
    pub fn to_bytes(&self) -> (out: Vec<u8>)
        requires
            self@.well_formed(),
        ensures
            out@ == self@.encoded(),
            out@.len() == 54 + self.name@.len() + self.description@.len() + self.layout@.len()
                + self.field_names@.len(),
    {
        let mut out: Vec<u8> = Vec::new();
        out.push(1u8);
        push_bytes(&mut out, self.credential.as_slice());
        push_u32_le(&mut out, self.version);
        out.push(if self.is_paused { 1u8 } else { 0u8 });
        assert(out@ =~= self@.head());
        push_prefixed(&mut out, self.name.as_slice());
        push_prefixed(&mut out, self.description.as_slice());
        push_prefixed(&mut out, self.layout.as_slice());
        push_prefixed(&mut out, self.field_names.as_slice());
        out
    }

    /// Reads a stored schema. A buffer that is too short, starts with
    /// another discriminator, holds a flag that is neither 0 nor 1,
    /// announces more than it holds or holds more than it announces is
    /// refused, in that order of precedence.
    pub fn try_from_bytes(bytes: &[u8]) -> (r: Result<Schema, DecodeError>)
        ensures
            match r {
                Ok(schema) => schema_decoding(bytes@) == Ok::<SchemaView, DecodeError>(schema@),
                Err(e) => schema_decoding(bytes@) == Err::<SchemaView, DecodeError>(e),
            },
    {
        proof {
            reveal(schema_decoding);
            axiom_spec_len(bytes);
        }
        if bytes.len() < SCHEMA_FIXED_LEN {
            return Err(DecodeError::TooShort);
        }
        if bytes[0] != 1 {
            return Err(DecodeError::WrongDiscriminator);
        }
        if bytes[37] > 1 {
            return Err(DecodeError::InvalidFlag);
        }
        let credential: [u8; 32] = read_key(bytes, 1);
        let version: u32 = read_u32_le(bytes, 33);
        let is_paused: bool = bytes[37] == 1;
        let (name, after_name) = match read_prefixed(bytes, 38) {
            Some(taken) => taken,
            None => { return Err(DecodeError::LengthOverrun); },
        };
        proof {
            lemma_take_prefixed_sound(bytes@, 38);
        }
        let (description, after_description) = match read_prefixed(bytes, after_name) {
            Some(taken) => taken,
            None => { return Err(DecodeError::LengthOverrun); },
        };
        proof {
            lemma_take_prefixed_sound(bytes@, after_name as int);
        }
        let (layout, after_layout) = match read_prefixed(bytes, after_description) {
            Some(taken) => taken,
            None => { return Err(DecodeError::LengthOverrun); },
        };
        proof {
            lemma_take_prefixed_sound(bytes@, after_description as int);
        }
        let (field_names, end) = match read_prefixed(bytes, after_layout) {
            Some(taken) => taken,
            None => { return Err(DecodeError::LengthOverrun); },
        };
        proof {
            lemma_take_prefixed_sound(bytes@, after_layout as int);
        }
        if end < bytes.len() {
            return Err(DecodeError::TrailingBytes);
        }
        Ok(Schema { credential, version, is_paused, name, description, layout, field_names })
    }
}

/// The fixed part of a stored schema holds the credential, the version and
/// the flag at their places.
proof fn lemma_schema_head(s: SchemaView)
    requires
        s.credential.len() == 32,
    ensures
        s.head().len() == 38,
        s.head()[0] == 1,
        s.head()[37] == flag_byte(s.is_paused),
        s.head().subrange(1, 33) == s.credential,
        u32_from_le(s.head().subrange(33, 37)) == s.version,
{
    lemma_u32_le_roundtrip(s.version);
    assert(s.head().subrange(1, 33) =~= s.credential);
    assert(s.head().subrange(33, 37) =~= u32_le(s.version));
}

/// Decoding the stored form of a schema gives the schema back.
pub proof fn lemma_schema_roundtrip(s: SchemaView)
    requires
        s.well_formed(),
    ensures
        s.encoded().len() == 54 + s.name.len() + s.description.len() + s.layout.len()
            + s.field_names.len(),
        schema_decoding(s.encoded()) == Ok::<SchemaView, DecodeError>(s),
{
    reveal(schema_decoding);
    let b = s.encoded();
    let h = s.head();
    let n = prefixed(s.name);
    let d = prefixed(s.description);
    let l = prefixed(s.layout);
    let f = prefixed(s.field_names);
    lemma_schema_head(s);
    lemma_regroup(h, n, d, l, f);
    lemma_take_prefixed_written(h, s.name, d + l + f);
    lemma_take_prefixed_written(h + n, s.description, l + f);
    lemma_take_prefixed_written(h + n + d, s.layout, f);
    lemma_take_prefixed_written(h + n + d + l, s.field_names, Seq::<u8>::empty());
    lemma_prefixed_len(s.name);
    lemma_prefixed_len(s.description);
    lemma_prefixed_len(s.layout);
    lemma_prefixed_len(s.field_names);
    assert(b.subrange(0, 38) == h);
    assert(b[0] == b.subrange(0, 38)[0]);
    assert(b[37] == b.subrange(0, 38)[37]);
    assert(b.subrange(1, 33) =~= b.subrange(0, 38).subrange(1, 33));
    assert(b.subrange(33, 37) =~= b.subrange(0, 38).subrange(33, 37));
    let after_name: int = (42 + s.name.len()) as int;
    let after_description: int = after_name + 4 + s.description.len();
    let after_layout: int = after_description + 4 + s.layout.len();
    let end: int = after_layout + 4 + s.field_names.len();
    assert(take_prefixed(b, 38) == Some((s.name, after_name)));
    assert(take_prefixed(b, after_name) == Some((s.description, after_description)));
    assert(take_prefixed(b, after_description) == Some((s.layout, after_layout)));
    assert(take_prefixed(b, after_layout) == Some((s.field_names, end)));
    assert(end == b.len());
}

/// A buffer that decodes as a schema is the stored form of that schema.
pub proof fn lemma_schema_decoding_sound(b: Seq<u8>)
    requires
        schema_decoding(b) is Ok,
    ensures
        schema_decoding(b)->Ok_0.well_formed(),
        schema_decoding(b)->Ok_0.encoded() == b,
{
    reveal(schema_decoding);
    let s = schema_decoding(b)->Ok_0;
    lemma_u32_from_le_roundtrip(b.subrange(33, 37));
    lemma_take_prefixed_sound(b, 38);
    let after_name = take_prefixed(b, 38).unwrap().1;
    lemma_take_prefixed_sound(b, after_name);
    let after_description = take_prefixed(b, after_name).unwrap().1;
    lemma_take_prefixed_sound(b, after_description);
    let after_layout = take_prefixed(b, after_description).unwrap().1;
    lemma_take_prefixed_sound(b, after_layout);
    let end = take_prefixed(b, after_layout).unwrap().1;
    assert(end == b.len());
    assert(s.head() =~= b.subrange(0, 38));
    assert(b =~= b.subrange(0, 38) + b.subrange(38, after_name) + b.subrange(after_name, after_description) + b.subrange(after_description, after_layout)
        + b.subrange(after_layout, end));
}

} // verus!
