//! What the command line asks for, as plain values.

use crate::fields::FieldType;
use crate::wire::{prefixed, u32_le};
use vstd::prelude::*;
use vstd::string::StringExecFns;

verus! {

/// The credential name that a command takes when none is given.
pub const CREDENTIAL_NAME: &'static str = "RNS_PROOF";

/// The schema name that a query takes when none is given.
pub const SCHEMA_NAME: &'static str = "jurisdiction";

/// Arguments of the command that creates a credential.
#[derive(Clone, Debug)]
pub struct CreateCredentialArgs {
    /// The credential name to use.
    pub credential_name: String,
}

/// Arguments of the command that creates a schema.
#[derive(Clone, Debug)]
pub struct CreateSchemaArgs {
    /// The name of the credential that the schema belongs to.
    pub credential_name: String,
    /// The shape of the claim that the schema describes.
    pub schema_type: SchemaType,
    /// The schema name to use.
    pub schema_name: String,
    /// A description of the schema.
    pub description: String,
}

/// Arguments of the command that creates an attestation of a sample claim.
#[derive(Clone, Debug)]
pub struct CreateAttestationArgs {
    /// The name of the credential that the attestation is issued under.
    pub credential_name: String,
    /// The name of the schema that the claim follows.
    pub schema_name: String,
    /// The recipient of the claim, as text.
    pub recipient: String,
    /// The shape of the claim.
    pub schema_type: SchemaType,
}

/// An attestation to create, with its claim already serialised.
#[derive(Clone, Debug)]
pub struct CreateAttestationInput {
    /// The name of the credential that the attestation is issued under.
    pub credential_name: String,
    /// The name of the schema that the claim follows.
    pub schema_name: String,
    /// The recipient of the claim, as text.
    pub recipient: String,
    /// The serialised claim.
    pub attestation_data: Vec<u8>,
}

/// The kind of record that a query lists.
#[derive(Clone, Copy, Debug, PartialEq, Eq, Structural)]
pub enum QueryType {
    Credential,
    Schema,
    Attestation,
}

/// The shape of a claim with one field.
#[derive(Clone, Copy, Debug, PartialEq, Eq, Structural)]
pub enum SchemaType {
    AgeOver18,
    AgeOver21,
    Gender,
    Jurisdiction,
    BirthYear,
    TestData,
}

/// Arguments of the command that lists records.
#[derive(Clone, Debug)]
pub struct QueryArgs {
    /// The name of the credential to list under.
    pub credential_name: String,
    /// The name of the schema to list under.
    pub schema_name: String,
    /// The kind of record to list.
    pub query_type: QueryType,
}

/// The commands.
#[derive(Clone, Debug)]
pub enum Commands {
    CreateCredential(CreateCredentialArgs),
    CreateSchema(CreateSchemaArgs),
    CreateAttestation(CreateAttestationArgs),
    Query(QueryArgs),
}

/// What a run of the command line was given.
#[derive(Clone, Debug)]
pub struct Args {
    /// The command to carry out.
    pub command: Commands,
    /// Where the ledger is reached.
    pub rpc_url: String,
    /// The program that owns the registry.
    pub program_id: [u8; 32],
    /// The fee offered for priority, if any.
    pub priority_fee: Option<u64>,
}

/// The lower-case form of a text, as `str::to_lowercase` gives it.
pub uninterp spec fn lowercase(text: Seq<char>) -> Seq<char>;

/// The lower-case form of `text`, through `str::to_lowercase`. The contract
/// names the result and claims nothing else of it.
#[verifier::external_body]
fn to_lowercase(text: &str) -> (lowered: String)
    ensures
        lowered@ == lowercase(text@),
{
    text.to_lowercase()
}

/// Whether `text` reads exactly as `word`.
fn reads_as(text: &String, word: &str) -> (same: bool)
    ensures
        same == (text@ == word@),
{
    *text == String::from_str(word)
}

/// The message for a word that names nothing known.
fn unknown(what: &str, word: &str) -> (message: String)
    ensures
        message@ == what@ + word@,
{
    String::from_str(what).concat(word)
}

impl QueryType {
    /// The query type that a lower-case word names.
    pub open spec fn named(word: Seq<char>) -> Option<QueryType> {
        if word == "credential"@ {
            Some(QueryType::Credential)
        } else if word == "schema"@ {
            Some(QueryType::Schema)
        } else if word == "attestation"@ {
            Some(QueryType::Attestation)
        } else {
            None
        }
    }

    /// The query type that an already lowered word names, or a message that
    /// repeats the word as it was written.
    pub fn from_lowered(lowered: &String, written: &str) -> (r: Result<QueryType, String>)
        ensures
            match QueryType::named(lowered@) {
                Some(query_type) => r == Ok::<QueryType, String>(query_type),
                None => r is Err && r->Err_0@ == "unknown query type: "@ + written@,
            },
    {
        if reads_as(lowered, "credential") {
            Ok(QueryType::Credential)
        } else if reads_as(lowered, "schema") {
            Ok(QueryType::Schema)
        } else if reads_as(lowered, "attestation") {
            Ok(QueryType::Attestation)
        } else {
            Err(unknown("unknown query type: ", written))
        }
    }

    /// Reads a query type, whatever the case of its letters.
    pub fn from_str(s: &str) -> (r: Result<QueryType, String>)
        ensures
            match QueryType::named(lowercase(s@)) {
                Some(query_type) => r == Ok::<QueryType, String>(query_type),
                None => r is Err && r->Err_0@ == "unknown query type: "@ + s@,
            },
    {
        let lowered = to_lowercase(s);
        QueryType::from_lowered(&lowered, s)
    }
}

impl SchemaType {
    /// The schema type that a lower-case word names.
    pub open spec fn named(word: Seq<char>) -> Option<SchemaType> {
        if word == "age_over18"@ {
            Some(SchemaType::AgeOver18)
        } else if word == "age_over21"@ {
            Some(SchemaType::AgeOver21)
        } else if word == "gender"@ {
            Some(SchemaType::Gender)
        } else if word == "jurisdiction"@ {
            Some(SchemaType::Jurisdiction)
        } else if word == "birth_year"@ {
            Some(SchemaType::BirthYear)
        } else if word == "test_data"@ {
            Some(SchemaType::TestData)
        } else {
            None
        }
    }

    /// The schema type that an already lowered word names, or a message that
    /// repeats the word as it was written.
    pub fn from_lowered(lowered: &String, written: &str) -> (r: Result<SchemaType, String>)
        ensures
            match SchemaType::named(lowered@) {
                Some(schema_type) => r == Ok::<SchemaType, String>(schema_type),
                None => r is Err && r->Err_0@ == "unknown schema type: "@ + written@,
            },
    {
        if reads_as(lowered, "age_over18") {
            Ok(SchemaType::AgeOver18)
        } else if reads_as(lowered, "age_over21") {
            Ok(SchemaType::AgeOver21)
        } else if reads_as(lowered, "gender") {
            Ok(SchemaType::Gender)
        } else if reads_as(lowered, "jurisdiction") {
            Ok(SchemaType::Jurisdiction)
        } else if reads_as(lowered, "birth_year") {
            Ok(SchemaType::BirthYear)
        } else if reads_as(lowered, "test_data") {
            Ok(SchemaType::TestData)
        } else {
            Err(unknown("unknown schema type: ", written))
        }
    }

    /// Reads a schema type, whatever the case of its letters.
    pub fn from_str(s: &str) -> (r: Result<SchemaType, String>)
        ensures
            match SchemaType::named(lowercase(s@)) {
                Some(schema_type) => r == Ok::<SchemaType, String>(schema_type),
                None => r is Err && r->Err_0@ == "unknown schema type: "@ + s@,
            },
    {
        let lowered = to_lowercase(s);
        SchemaType::from_lowered(&lowered, s)
    }
}

impl SchemaType {
    /// The type of the one field of a claim of this shape.
    pub open spec fn field_type(self) -> FieldType {
        match self {
            SchemaType::AgeOver18 => FieldType::Bool,
            SchemaType::AgeOver21 => FieldType::Bool,
            SchemaType::Gender => FieldType::Bool,
            SchemaType::Jurisdiction => FieldType::Text,
            SchemaType::BirthYear => FieldType::U32,
            SchemaType::TestData => FieldType::Text,
        }
    }

    /// The name of the one field of a claim of this shape.
    pub open spec fn field_text(self) -> Seq<char> {
        match self {
            SchemaType::AgeOver18 => "age_over18"@,
            SchemaType::AgeOver21 => "age_over21"@,
            SchemaType::Gender => "gender"@,
            SchemaType::Jurisdiction => "jurisdiction"@,
            SchemaType::BirthYear => "birth_year"@,
            SchemaType::TestData => "name"@,
        }
    }

    /// The sample claim of this shape in its serialised form: a flag is one
    /// byte, a year four bytes with the least significant first, a text
    /// its UTF-8 bytes behind their count.
    pub open spec fn sample(self) -> Seq<u8> {
        match self {
            SchemaType::AgeOver18 => seq![1u8],
            SchemaType::AgeOver21 => seq![1u8],
            SchemaType::Gender => seq![1u8],
            SchemaType::Jurisdiction => prefixed(seq![49u8]),
            SchemaType::BirthYear => u32_le(2000),
            SchemaType::TestData => prefixed(seq![116u8, 114, 117, 101]),
        }
    }

    /// The layout of a schema of this shape: the tag of its one field.
    pub fn layout(&self) -> (layout: Vec<u8>)
        ensures
            layout@ == seq![self.field_type().tag()],
    {
        let field_type = match self {
            SchemaType::AgeOver18 => FieldType::Bool,
            SchemaType::AgeOver21 => FieldType::Bool,
            SchemaType::Gender => FieldType::Bool,
            SchemaType::Jurisdiction => FieldType::Text,
            SchemaType::BirthYear => FieldType::U32,
            SchemaType::TestData => FieldType::Text,
        };
        let layout: Vec<u8> = vec![field_type.tag_byte()];
        assert(layout@ =~= seq![self.field_type().tag()]);
        layout
    }

    /// The name of the one field of a claim of this shape.
    pub fn field_name(&self) -> (name: String)
        ensures
            name@ == self.field_text(),
    {
        match self {
            SchemaType::AgeOver18 => String::from_str("age_over18"),
            SchemaType::AgeOver21 => String::from_str("age_over21"),
            SchemaType::Gender => String::from_str("gender"),
            SchemaType::Jurisdiction => String::from_str("jurisdiction"),
            SchemaType::BirthYear => String::from_str("birth_year"),
            SchemaType::TestData => String::from_str("name"),
        }
    }

    /// The sample claim of this shape, serialised: `true` for a flag, the
    /// year 2000, the jurisdiction `1`, the test name `true`.
    pub fn sample_data(&self) -> (data: Vec<u8>)
        ensures
            data@ == self.sample(),
    {
        let data: Vec<u8> = match self {
            SchemaType::AgeOver18 => vec![1u8],
            SchemaType::AgeOver21 => vec![1u8],
            SchemaType::Gender => vec![1u8],
            SchemaType::Jurisdiction => vec![1u8, 0, 0, 0, 49],
            SchemaType::BirthYear => vec![208u8, 7, 0, 0],
            SchemaType::TestData => vec![4u8, 0, 0, 0, 116, 114, 117, 101],
        };
        assert(data@ =~= self.sample());
        data
    }
}

} // verus!
