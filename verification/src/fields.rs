//! The fields of a schema: their type tags and their names.
//!
//! A schema stores one type tag for each field in its layout, and the names
//! of the fields one behind the other, each behind its length. The number
//! of names is not stored with them: it is the number of tags. To read the
//! names, the count is put back in front of them and the whole is decoded
//! as a list of texts.

use crate::error::{DecodeError, RegistryError};
use crate::wire::{prefixed, push_bytes, push_prefixed, push_u32_le, u32_le};
use borsh::BorshDeserialize;
use vstd::prelude::*;
use vstd::slice::axiom_spec_len;
use vstd::utf8::encode_utf8;

verus! {

/// The type of a field of a claim.
#[derive(Clone, Copy, Debug, PartialEq, Eq, Structural)]
pub enum FieldType {
    U8,
    U16,
    U32,
    U64,
    U128,
    I8,
    I16,
    I32,
    I64,
    I128,
    Bool,
    Char,
    Text,
}

impl FieldType {
    /// The tag that stands for the type in a layout.
    pub open spec fn tag(self) -> u8 {
        match self {
            FieldType::U8 => 0,
            FieldType::U16 => 1,
            FieldType::U32 => 2,
            FieldType::U64 => 3,
            FieldType::U128 => 4,
            FieldType::I8 => 5,
            FieldType::I16 => 6,
            FieldType::I32 => 7,
            FieldType::I64 => 8,
            FieldType::I128 => 9,
            FieldType::Bool => 10,
            FieldType::Char => 11,
            FieldType::Text => 12,
        }
    }

    /// The tag that stands for the type in a layout.
    pub fn tag_byte(&self) -> (tag: u8)
        ensures
            tag == self.tag(),
    {
        match self {
            FieldType::U8 => 0,
            FieldType::U16 => 1,
            FieldType::U32 => 2,
            FieldType::U64 => 3,
            FieldType::U128 => 4,
            FieldType::I8 => 5,
            FieldType::I16 => 6,
            FieldType::I32 => 7,
            FieldType::I64 => 8,
            FieldType::I128 => 9,
            FieldType::Bool => 10,
            FieldType::Char => 11,
            FieldType::Text => 12,
        }
    }

    /// The type that a tag stands for, if it stands for one.
    pub fn from_tag(tag: u8) -> (field_type: Option<FieldType>)
        ensures
            tag > 12 ==> field_type is None,
            tag <= 12 ==> field_type is Some && field_type->0.tag() == tag,
    {
        match tag {
            0 => Some(FieldType::U8),
            1 => Some(FieldType::U16),
            2 => Some(FieldType::U32),
            3 => Some(FieldType::U64),
            4 => Some(FieldType::U128),
            5 => Some(FieldType::I8),
            6 => Some(FieldType::I16),
            7 => Some(FieldType::I32),
            8 => Some(FieldType::I64),
            9 => Some(FieldType::I128),
            10 => Some(FieldType::Bool),
            11 => Some(FieldType::Char),
            12 => Some(FieldType::Text),
            _ => None,
        }
    }
}

/// The texts of a list.
pub open spec fn text_list(names: Seq<String>) -> Seq<Seq<char>> {
    Seq::new(names.len(), |i: int| names[i]@)
}

/// The names of the fields as a schema stores them: each in UTF-8 behind
/// its length, one behind the other, without their count.
pub open spec fn names_bytes(names: Seq<Seq<char>>) -> Seq<u8>
    decreases names.len(),
{
    if names.len() == 0 {
        Seq::empty()
    } else {
        names_bytes(names.drop_last()) + prefixed(encode_utf8(names.last()))
    }
}

/// Whether every name fits its length prefix.
pub open spec fn names_fit(names: Seq<Seq<char>>) -> bool {
    forall|i: int| 0 <= i < names.len() ==> encode_utf8(#[trigger] names[i]).len() <= u32::MAX
}

/// Lays out the names of the fields as a schema stores them. A name of
/// more bytes than a length prefix can say is refused.
pub fn encode_field_names(names: &Vec<String>) -> (r: Result<Vec<u8>, RegistryError>)
    ensures
        names_fit(text_list(names@)) ==> r is Ok && r->Ok_0@ == names_bytes(text_list(names@)),
        !names_fit(text_list(names@)) ==> r == Err::<Vec<u8>, RegistryError>(
            RegistryError::InvalidInstructionData,
        ),
{
    let ghost texts = text_list(names@);
    let mut out: Vec<u8> = Vec::new();
    let mut i: usize = 0;
    assert(texts.subrange(0, 0) =~= Seq::<Seq<char>>::empty());
    while i < names.len()
        invariant
            i <= names@.len(),
            texts == text_list(names@),
            names_fit(texts.subrange(0, i as int)),
            out@ == names_bytes(texts.subrange(0, i as int)),
        decreases names@.len() - i,
    {
        let bytes: &[u8] = names[i].as_str().as_bytes();
        proof {
            axiom_spec_len(bytes);
            assert(bytes@ == encode_utf8(texts[i as int]));
        }
        if bytes.len() > 0xffff_ffff {
            return Err(RegistryError::InvalidInstructionData);
        }
        push_prefixed(&mut out, bytes);
        proof {
            let upto = texts.subrange(0, i + 1);
            assert(upto.drop_last() =~= texts.subrange(0, i as int));
            assert(upto.last() == texts[i as int]);
            assert forall|j: int| 0 <= j < upto.len() implies encode_utf8(#[trigger] upto[j]).len()
                <= u32::MAX by {
                if j < i {
                    assert(texts.subrange(0, i as int)[j] == upto[j]);
                }
            }
        }
        i += 1;
    }
    assert(texts.subrange(0, i as int) =~= texts);
    Ok(out)
}

/// The list of texts that `bytes` decode to as a Borsh `Vec<String>`, or
/// `None` where they are no such list.
pub uninterp spec fn borsh_string_list(bytes: Seq<u8>) -> Option<Seq<Seq<char>>>;

/// Decodes `bytes` as a list of texts with `BorshDeserialize::try_from_slice`
/// for `Vec<String>`. The contract gives the outcome its name,
/// [`borsh_string_list`], and claims nothing else of it.
#[verifier::external_body]
fn decode_string_list(bytes: &[u8]) -> (list: Option<Vec<String>>)
    ensures
        match list {
            Some(names) => borsh_string_list(bytes@) == Some(text_list(names@)),
            None => borsh_string_list(bytes@) is None,
        },
{
    Vec::<String>::try_from_slice(bytes).ok()
}

/// What the stored names of a schema are read from: the number of tags in
/// the layout as a count, and the names behind it.
pub open spec fn counted_names(layout: Seq<u8>, field_names: Seq<u8>) -> Seq<u8> {
    u32_le(layout.len() as u32) + field_names
}

/// What the reading of the names makes of a decoded list.
pub open spec fn names_outcome(decoded: Option<Seq<Seq<char>>>) -> Result<
    Seq<Seq<char>>,
    DecodeError,
> {
    match decoded {
        Some(names) => Ok(names),
        None => Err(DecodeError::InvalidFieldNames),
    }
}

/// Whether a reading of the names is the modelled one.
pub open spec fn is_names(
    r: Result<Vec<String>, DecodeError>,
    expected: Result<Seq<Seq<char>>, DecodeError>,
) -> bool {
    match r {
        Ok(names) => expected == Ok::<Seq<Seq<char>>, DecodeError>(text_list(names@)),
        Err(e) => expected == Err::<Seq<Seq<char>>, DecodeError>(e),
    }
}

/// Turns a decoded list into the names of the fields: the list, or the
/// error for bytes that are no list.
pub fn field_names_outcome(decoded: Option<Vec<String>>) -> (r: Result<Vec<String>, DecodeError>)
    ensures
        match decoded {
            Some(names) => r is Ok && r->Ok_0@ == names@,
            None => r == Err::<Vec<String>, DecodeError>(DecodeError::InvalidFieldNames),
        },
{
    match decoded {
        Some(names) => Ok(names),
        None => Err(DecodeError::InvalidFieldNames),
    }
}

/// Reads the names of the fields of a schema from its layout and its
/// stored names. A layout of more tags than a count can say is refused as
/// an overrun.
pub fn decode_field_names(layout: &[u8], field_names: &[u8]) -> (r: Result<
    Vec<String>,
    DecodeError,
>)
    ensures
        layout@.len() > u32::MAX ==> r == Err::<Vec<String>, DecodeError>(
            DecodeError::LengthOverrun,
        ),
        layout@.len() <= u32::MAX ==> is_names(
            r,
            names_outcome(borsh_string_list(counted_names(layout@, field_names@))),
        ),
{
    proof {
        axiom_spec_len(layout);
    }
    if layout.len() > 0xffff_ffff {
        return Err(DecodeError::LengthOverrun);
    }
    let mut counted: Vec<u8> = Vec::new();
    push_u32_le(&mut counted, layout.len() as u32);
    push_bytes(&mut counted, field_names);
    assert(counted@ =~= counted_names(layout@, field_names@));
    field_names_outcome(decode_string_list(counted.as_slice()))
}

} // verus!
