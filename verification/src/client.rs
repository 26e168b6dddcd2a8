//! What the commands send: for each command the instruction that carries
//! it out, with the accounts in the order the handlers expect.
//!
//! Nothing here talks to a ledger. A command is turned into a
//! [`Prepared`] instruction; to sign and send it is left to the caller.

use crate::address::{
    attestation_seeds, credential_seeds, derivation, get_attestation_pda, get_credential_pda,
    get_request_pda, get_schema_pda, parse_address, base58_address, request_seeds, schema_seeds,
};
use crate::account::system_program;
use crate::cli::{
    Args, CreateAttestationInput, CreateCredentialArgs, CreateSchemaArgs, QueryArgs, QueryType,
};
use crate::error::RegistryError;
use crate::fields::{encode_field_names, names_bytes, names_fit};
use crate::instruction::{encode_payload, payload_bytes, Payload};
use crate::ledger::{meta_list, AccountMeta, Cell, MetaView};
use crate::processor::Instruction;
use crate::query::{
    address_list, attestation_filter_list, credential_filter_list,
    get_all_attestation_addresses, get_all_credential_addresses, get_all_schema_addresses,
    schema_filter_list, selected,
};
use crate::claim::{lemma_frame_roundtrip, AttestationView, RequestView};
use crate::credential::{credential_decoding, lemma_credential_roundtrip, CredentialView};
use crate::instruction::{lemma_payload_roundtrip, payload_of, payload_well_formed};
use crate::ledger::{loaded, loaded_list, outcome, State};
use crate::processor::{credential_fault, parent_fault, schema_payload, CreationView};
use crate::processor::{credential_payload, SchemaPayload};
use crate::schema::{lemma_schema_roundtrip, SchemaView};
use crate::wire::{
    lemma_prefixed_len, lemma_regroup, lemma_take_prefixed_written, prefixed, push_prefixed,
};
use vstd::prelude::*;
use vstd::slice::axiom_spec_len;
use vstd::utf8::encode_utf8;

verus! {

/// Seconds that an attestation made from the command line holds.
pub const ATTESTATION_LIFETIME: i64 = 36000;

/// An instruction that is ready to be signed and sent.
#[derive(Debug)]
pub struct Prepared {
    /// Which handler the instruction is for.
    pub instruction: Instruction,
    /// The accounts, in the handler's order.
    pub accounts: Vec<AccountMeta>,
    /// The payload.
    pub data: Vec<u8>,
}

/// A prepared instruction as plain values.
pub struct PreparedView {
    pub instruction: Instruction,
    pub accounts: Seq<MetaView>,
    pub data: Seq<u8>,
}

impl Prepared {
    /// The instruction as plain values.
    pub open spec fn view(&self) -> PreparedView {
        PreparedView {
            instruction: self.instruction,
            accounts: meta_list(self.accounts@),
            data: self.data@,
        }
    }
}

impl Prepared {
    /// The instruction as it goes over the wire: the byte that names the
    /// handler, then the payload.
    pub fn wire_data(&self) -> (wire: Vec<u8>)
        ensures
            wire@ == seq![self.instruction.code()] + self.data@,
    {
        let mut wire: Vec<u8> = Vec::new();
        wire.push(self.instruction.code_byte());
        crate::wire::push_bytes(&mut wire, self.data.as_slice());
        assert(wire@ =~= seq![self.instruction.code()] + self.data@);
        wire
    }
}

/// An account that pays: it signs and is changed.
pub open spec fn paying(key: Seq<u8>) -> MetaView {
    MetaView { key, is_signer: true, is_writable: true }
}

/// An account that signs and is not changed.
pub open spec fn signing(key: Seq<u8>) -> MetaView {
    MetaView { key, is_signer: true, is_writable: false }
}

/// An account that is created: it is changed and does not sign.
pub open spec fn created(key: Seq<u8>) -> MetaView {
    MetaView { key, is_signer: false, is_writable: true }
}

/// An account that is only read.
pub open spec fn read_only(key: Seq<u8>) -> MetaView {
    MetaView { key, is_signer: false, is_writable: false }
}

/// The instruction that creates a credential: payer, credential,
/// authority, system program; the name behind its length.
pub open spec fn credential_prepared(
    payer: Seq<u8>,
    authority: Seq<u8>,
    credential: Seq<u8>,
    name: Seq<u8>,
) -> PreparedView {
    PreparedView {
        instruction: Instruction::CreateCredential,
        accounts: seq![
            paying(payer),
            created(credential),
            signing(authority),
            read_only(system_program()),
        ],
        data: prefixed(name),
    }
}

/// The instruction that creates a schema: payer, authority, credential,
/// schema, system program; name, description, layout and field names, each
/// behind its length.
pub open spec fn schema_prepared(
    payer: Seq<u8>,
    authority: Seq<u8>,
    credential: Seq<u8>,
    schema: Seq<u8>,
    name: Seq<u8>,
    description: Seq<u8>,
    layout: Seq<u8>,
    field_names: Seq<u8>,
) -> PreparedView {
    PreparedView {
        instruction: Instruction::CreateSchema,
        accounts: seq![
            paying(payer),
            signing(authority),
            read_only(credential),
            created(schema),
            read_only(system_program()),
        ],
        data: prefixed(name) + prefixed(description) + prefixed(layout) + prefixed(field_names),
    }
}

/// The instruction that creates a claim, an attestation or a request:
/// payer, authority, credential, schema, the claim's account, system
/// program; nonce, data and expiry as the payload lays them out.
pub open spec fn claim_prepared(
    instruction: Instruction,
    payer: Seq<u8>,
    authority: MetaView,
    credential: Seq<u8>,
    schema: Seq<u8>,
    claim: Seq<u8>,
    payload: Payload,
) -> PreparedView {
    PreparedView {
        instruction,
        accounts: seq![
            paying(payer),
            authority,
            read_only(credential),
            read_only(schema),
            created(claim),
            read_only(system_program()),
        ],
        data: payload_bytes(payload),
    }
}

/// An account of an instruction.
fn meta(key: &[u8; 32], is_signer: bool, is_writable: bool) -> (account: AccountMeta)
    ensures
        account.key@ == key@,
        account.is_signer == is_signer,
        account.is_writable == is_writable,
{
    AccountMeta { key: *key, is_signer, is_writable }
}

/// The account of the system program.
fn system_meta() -> (account: AccountMeta)
    ensures
        account.key@ == system_program(),
        !account.is_signer,
        !account.is_writable,
{
    let key: [u8; 32] = [0u8; 32];
    assert(key@ =~= system_program());
    AccountMeta { key, is_signer: false, is_writable: false }
}

/// The instruction that creates the credential at `credential_pda`.
pub fn credential_instruction(
    payer: &[u8; 32],
    authority: &[u8; 32],
    credential_pda: &[u8; 32],
    name: &[u8],
) -> (prepared: Prepared)
    requires
        name@.len() <= u32::MAX,
    ensures
        prepared@ == credential_prepared(payer@, authority@, credential_pda@, name@),
{
    let mut data: Vec<u8> = Vec::new();
    push_prefixed(&mut data, name);
    let accounts: Vec<AccountMeta> = vec![
        meta(payer, true, true),
        meta(credential_pda, false, true),
        meta(authority, true, false),
        system_meta(),
    ];
    let prepared = Prepared { instruction: Instruction::CreateCredential, accounts, data };
    assert(prepared@.accounts =~= credential_prepared(
        payer@,
        authority@,
        credential_pda@,
        name@,
    ).accounts);
    assert(prepared@.data =~= prefixed(name@));
    prepared
}

/// The instruction that creates the schema at `schema_pda`.
pub fn schema_instruction(
    payer: &[u8; 32],
    authority: &[u8; 32],
    credential_pda: &[u8; 32],
    schema_pda: &[u8; 32],
    name: &[u8],
    description: &[u8],
    layout: &[u8],
    field_names: &[u8],
) -> (prepared: Prepared)
    requires
        name@.len() <= u32::MAX,
        description@.len() <= u32::MAX,
        layout@.len() <= u32::MAX,
        field_names@.len() <= u32::MAX,
    ensures
        prepared@ == schema_prepared(
            payer@,
            authority@,
            credential_pda@,
            schema_pda@,
            name@,
            description@,
            layout@,
            field_names@,
        ),
{
    let mut data: Vec<u8> = Vec::new();
    push_prefixed(&mut data, name);
    push_prefixed(&mut data, description);
    push_prefixed(&mut data, layout);
    push_prefixed(&mut data, field_names);
    let accounts: Vec<AccountMeta> = vec![
        meta(payer, true, true),
        meta(authority, true, false),
        meta(credential_pda, false, false),
        meta(schema_pda, false, true),
        system_meta(),
    ];
    let prepared = Prepared { instruction: Instruction::CreateSchema, accounts, data };
    assert(prepared@.accounts =~= schema_prepared(
        payer@,
        authority@,
        credential_pda@,
        schema_pda@,
        name@,
        description@,
        layout@,
        field_names@,
    ).accounts);
    assert(prepared@.data =~= prefixed(name@) + prefixed(description@) + prefixed(layout@)
        + prefixed(field_names@));
    prepared
}

/// The instruction that creates the attestation at `attestation_pda`. The
/// authority signs.
pub fn attestation_instruction(
    payer: &[u8; 32],
    authority: &[u8; 32],
    credential_pda: &[u8; 32],
    schema_pda: &[u8; 32],
    attestation_pda: &[u8; 32],
    nonce: &[u8; 32],
    data: &[u8],
    expiry: i64,
) -> (prepared: Prepared)
    requires
        data@.len() <= u32::MAX,
    ensures
        prepared@ == claim_prepared(
            Instruction::CreateAttestation,
            payer@,
            signing(authority@),
            credential_pda@,
            schema_pda@,
            attestation_pda@,
            Payload { nonce: nonce@, data: data@, expiry },
        ),
{
    let accounts: Vec<AccountMeta> = vec![
        meta(payer, true, true),
        meta(authority, true, false),
        meta(credential_pda, false, false),
        meta(schema_pda, false, false),
        meta(attestation_pda, false, true),
        system_meta(),
    ];
    let prepared = Prepared {
        instruction: Instruction::CreateAttestation,
        accounts,
        data: encode_payload(nonce, data, expiry),
    };
    assert(prepared@.accounts =~= claim_prepared(
        Instruction::CreateAttestation,
        payer@,
        signing(authority@),
        credential_pda@,
        schema_pda@,
        attestation_pda@,
        Payload { nonce: nonce@, data: data@, expiry },
    ).accounts);
    prepared
}

/// The instruction that creates the request at `request_pda`. Only the
/// payer signs.
pub fn request_instruction(
    payer: &[u8; 32],
    authority: &[u8; 32],
    credential_pda: &[u8; 32],
    schema_pda: &[u8; 32],
    request_pda: &[u8; 32],
    nonce: &[u8; 32],
    data: &[u8],
    expiry: i64,
) -> (prepared: Prepared)
    requires
        data@.len() <= u32::MAX,
    ensures
        prepared@ == claim_prepared(
            Instruction::CreateRequest,
            payer@,
            read_only(authority@),
            credential_pda@,
            schema_pda@,
            request_pda@,
            Payload { nonce: nonce@, data: data@, expiry },
        ),
{
    let accounts: Vec<AccountMeta> = vec![
        meta(payer, true, true),
        meta(authority, false, false),
        meta(credential_pda, false, false),
        meta(schema_pda, false, false),
        meta(request_pda, false, true),
        system_meta(),
    ];
    let prepared = Prepared {
        instruction: Instruction::CreateRequest,
        accounts,
        data: encode_payload(nonce, data, expiry),
    };
    assert(prepared@.accounts =~= claim_prepared(
        Instruction::CreateRequest,
        payer@,
        read_only(authority@),
        credential_pda@,
        schema_pda@,
        request_pda@,
        Payload { nonce: nonce@, data: data@, expiry },
    ).accounts);
    prepared
}

/// Whether a prepared instruction is the modelled one.
pub open spec fn is_prepared(
    r: Result<Prepared, RegistryError>,
    expected: Result<PreparedView, RegistryError>,
) -> bool {
    match r {
        Ok(prepared) => expected == Ok::<PreparedView, RegistryError>(prepared@),
        Err(e) => expected == Err::<PreparedView, RegistryError>(e),
    }
}

/// What the command that creates a credential sends. The authority pays.
pub open spec fn create_credential_command(
    program_id: Seq<u8>,
    authority: Seq<u8>,
    name: Seq<u8>,
) -> Result<PreparedView, RegistryError> {
    match derivation(credential_seeds(authority, name), program_id) {
        Err(e) => Err(e),
        Ok((credential, _)) => Ok(credential_prepared(authority, authority, credential, name)),
    }
}

/// Prepares the instruction that creates the credential of `authority`
/// under the name that the command gives.
pub fn process_create_credential(
    args: &Args,
    authority: &[u8; 32],
    sub_args: &CreateCredentialArgs,
) -> (r: Result<Prepared, RegistryError>)
    ensures
        is_prepared(
            r,
            create_credential_command(
                args.program_id@,
                authority@,
                encode_utf8(sub_args.credential_name@),
            ),
        ),
{
    let name: &str = sub_args.credential_name.as_str();
    let (credential_pda, _) = match get_credential_pda(&args.program_id, authority, name) {
        Ok(found) => found,
        Err(e) => { return Err(e); },
    };
    Ok(credential_instruction(authority, authority, &credential_pda, name.as_bytes()))
}

/// What the command that creates a schema sends. The authority pays; the
/// schema has the one field of its shape.
pub open spec fn create_schema_command(
    program_id: Seq<u8>,
    authority: Seq<u8>,
    credential_name: Seq<u8>,
    schema_name: Seq<u8>,
    description: Seq<u8>,
    layout: Seq<u8>,
    field_name: Seq<char>,
) -> Result<PreparedView, RegistryError> {
    match derivation(credential_seeds(authority, credential_name), program_id) {
        Err(e) => Err(e),
        Ok((credential, _)) => match derivation(schema_seeds(credential, schema_name), program_id) {
            Err(e) => Err(e),
            Ok((schema, _)) => if description.len() > u32::MAX || !names_fit(seq![field_name])
                || names_bytes(seq![field_name]).len() > u32::MAX {
                Err(RegistryError::InvalidInstructionData)
            } else {
                Ok(
                    schema_prepared(
                        authority,
                        authority,
                        credential,
                        schema,
                        schema_name,
                        description,
                        layout,
                        names_bytes(seq![field_name]),
                    ),
                )
            },
        },
    }
}

/// Prepares the instruction that creates a schema of the shape that the
/// command gives, under the credential of `authority`.
pub fn process_create_schema(args: &Args, authority: &[u8; 32], sub_args: &CreateSchemaArgs) -> (r:
    Result<Prepared, RegistryError>)
    ensures
        is_prepared(
            r,
            create_schema_command(
                args.program_id@,
                authority@,
                encode_utf8(sub_args.credential_name@),
                encode_utf8(sub_args.schema_name@),
                encode_utf8(sub_args.description@),
                seq![sub_args.schema_type.field_type().tag()],
                sub_args.schema_type.field_text(),
            ),
        ),
{
    let credential_name: &str = sub_args.credential_name.as_str();
    let schema_name: &str = sub_args.schema_name.as_str();
    let description: &[u8] = sub_args.description.as_str().as_bytes();
    let (credential_pda, _) = match get_credential_pda(
        &args.program_id,
        authority,
        credential_name,
    ) {
        Ok(found) => found,
        Err(e) => { return Err(e); },
    };
    let (schema_pda, _) = match get_schema_pda(&args.program_id, &credential_pda, schema_name) {
        Ok(found) => found,
        Err(e) => { return Err(e); },
    };
    proof {
        axiom_spec_len(description);
    }
    if description.len() > 0xffff_ffff {
        return Err(RegistryError::InvalidInstructionData);
    }
    let layout: Vec<u8> = sub_args.schema_type.layout();
    let names: Vec<String> = vec![sub_args.schema_type.field_name()];
    assert(crate::fields::text_list(names@) =~= seq![sub_args.schema_type.field_text()]);
    let field_names: Vec<u8> = match encode_field_names(&names) {
        Ok(bytes) => bytes,
        Err(e) => { return Err(e); },
    };
    if field_names.len() > 0xffff_ffff {
        return Err(RegistryError::InvalidInstructionData);
    }
    Ok(
        schema_instruction(
            authority,
            authority,
            &credential_pda,
            &schema_pda,
            schema_name.as_bytes(),
            description,
            layout.as_slice(),
            field_names.as_slice(),
        ),
    )
}

/// What the command that creates an attestation sends. The authority pays
/// and signs; the recipient is the nonce; the attestation holds for
/// [`ATTESTATION_LIFETIME`] seconds from `now`.
pub open spec fn create_attestation_command(
    program_id: Seq<u8>,
    authority: Seq<u8>,
    recipient: Option<Seq<u8>>,
    now: i64,
    credential_name: Seq<u8>,
    schema_name: Seq<u8>,
    data: Seq<u8>,
) -> Result<PreparedView, RegistryError> {
    if recipient is None || now + 36000 > i64::MAX || data.len() > u32::MAX {
        Err(RegistryError::InvalidInstructionData)
    } else {
        match derivation(credential_seeds(authority, credential_name), program_id) {
            Err(e) => Err(e),
            Ok((credential, _)) => match derivation(
                schema_seeds(credential, schema_name),
                program_id,
            ) {
                Err(e) => Err(e),
                Ok((schema, _)) => match derivation(
                    attestation_seeds(credential, authority, schema, recipient->0),
                    program_id,
                ) {
                    Err(e) => Err(e),
                    Ok((attestation, _)) => Ok(
                        claim_prepared(
                            Instruction::CreateAttestation,
                            authority,
                            signing(authority),
                            credential,
                            schema,
                            attestation,
                            Payload { nonce: recipient->0, data, expiry: (now + 36000) as i64 },
                        ),
                    ),
                },
            },
        }
    }
}

/// Prepares the instruction that creates an attestation of the claim that
/// the command gives, for the recipient that it names.
pub fn process_create_attestation(
    args: &Args,
    authority: &[u8; 32],
    now: i64,
    sub_args: &CreateAttestationInput,
) -> (r: Result<Prepared, RegistryError>)
    ensures
        is_prepared(
            r,
            create_attestation_command(
                args.program_id@,
                authority@,
                base58_address(sub_args.recipient@),
                now,
                encode_utf8(sub_args.credential_name@),
                encode_utf8(sub_args.schema_name@),
                sub_args.attestation_data@,
            ),
        ),
{
    let recipient: [u8; 32] = match parse_address(sub_args.recipient.as_str()) {
        Ok(recipient) => recipient,
        Err(e) => { return Err(e); },
    };
    let expiry: i64 = match now.checked_add(ATTESTATION_LIFETIME) {
        Some(expiry) => expiry,
        None => { return Err(RegistryError::InvalidInstructionData); },
    };
    let data: &[u8] = sub_args.attestation_data.as_slice();
    proof {
        axiom_spec_len(data);
    }
    if data.len() > 0xffff_ffff {
        return Err(RegistryError::InvalidInstructionData);
    }
    let (credential_pda, _) = match get_credential_pda(
        &args.program_id,
        authority,
        sub_args.credential_name.as_str(),
    ) {
        Ok(found) => found,
        Err(e) => { return Err(e); },
    };
    let (schema_pda, _) = match get_schema_pda(
        &args.program_id,
        &credential_pda,
        sub_args.schema_name.as_str(),
    ) {
        Ok(found) => found,
        Err(e) => { return Err(e); },
    };
    let (attestation_pda, _) = match get_attestation_pda(
        &args.program_id,
        &credential_pda,
        &schema_pda,
        authority,
        &recipient,
    ) {
        Ok(found) => found,
        Err(e) => { return Err(e); },
    };
    Ok(
        attestation_instruction(
            authority,
            authority,
            &credential_pda,
            &schema_pda,
            &attestation_pda,
            &recipient,
            data,
            expiry,
        ),
    )
}

/// What the command that creates a request sends. The payer signs and is
/// the recipient; the credential is that of `authority`, who does not sign.
pub open spec fn create_request_command(
    program_id: Seq<u8>,
    payer: Seq<u8>,
    authority: Seq<u8>,
    expiry: i64,
    credential_name: Seq<u8>,
    schema_name: Seq<u8>,
    data: Seq<u8>,
) -> Result<PreparedView, RegistryError> {
    if data.len() > u32::MAX {
        Err(RegistryError::InvalidInstructionData)
    } else {
        match derivation(credential_seeds(authority, credential_name), program_id) {
            Err(e) => Err(e),
            Ok((credential, _)) => match derivation(
                schema_seeds(credential, schema_name),
                program_id,
            ) {
                Err(e) => Err(e),
                Ok((schema, _)) => match derivation(
                    request_seeds(credential, schema, payer),
                    program_id,
                ) {
                    Err(e) => Err(e),
                    Ok((request, _)) => Ok(
                        claim_prepared(
                            Instruction::CreateRequest,
                            payer,
                            read_only(authority),
                            credential,
                            schema,
                            request,
                            Payload { nonce: payer, data, expiry },
                        ),
                    ),
                },
            },
        }
    }
}

/// Prepares the instruction that creates a request for the claim that the
/// command gives. Who pays is the recipient of the claim.
pub fn process_create_request(
    args: &Args,
    payer: &[u8; 32],
    authority: &[u8; 32],
    expiry: i64,
    sub_args: &CreateAttestationInput,
) -> (r: Result<Prepared, RegistryError>)
    ensures
        is_prepared(
            r,
            create_request_command(
                args.program_id@,
                payer@,
                authority@,
                expiry,
                encode_utf8(sub_args.credential_name@),
                encode_utf8(sub_args.schema_name@),
                sub_args.attestation_data@,
            ),
        ),
{
    let data: &[u8] = sub_args.attestation_data.as_slice();
    proof {
        axiom_spec_len(data);
    }
    if data.len() > 0xffff_ffff {
        return Err(RegistryError::InvalidInstructionData);
    }
    let (credential_pda, _) = match get_credential_pda(
        &args.program_id,
        authority,
        sub_args.credential_name.as_str(),
    ) {
        Ok(found) => found,
        Err(e) => { return Err(e); },
    };
    let (schema_pda, _) = match get_schema_pda(
        &args.program_id,
        &credential_pda,
        sub_args.schema_name.as_str(),
    ) {
        Ok(found) => found,
        Err(e) => { return Err(e); },
    };
    let (request_pda, _) = match get_request_pda(
        &args.program_id,
        &credential_pda,
        &schema_pda,
        payer,
    ) {
        Ok(found) => found,
        Err(e) => { return Err(e); },
    };
    Ok(
        request_instruction(
            payer,
            authority,
            &credential_pda,
            &schema_pda,
            &request_pda,
            payer,
            data,
            expiry,
        ),
    )
}

/// What a query lists: the credentials of the program, the schemas of the
/// credential that the query names, or the attestations under that
/// credential and the schema that the query names.
pub open spec fn query_answer(
    program_id: Seq<u8>,
    authority: Seq<u8>,
    credential_name: Seq<u8>,
    schema_name: Seq<u8>,
    query_type: QueryType,
    cells: Seq<Cell>,
) -> Result<Seq<Seq<u8>>, RegistryError> {
    match derivation(credential_seeds(authority, credential_name), program_id) {
        Err(e) => Err(e),
        Ok((credential, _)) => match derivation(schema_seeds(credential, schema_name), program_id) {
            Err(e) => Err(e),
            Ok((schema, _)) => Ok(
                match query_type {
                    QueryType::Credential => selected(cells, program_id, credential_filter_list()),
                    QueryType::Schema => selected(
                        cells,
                        program_id,
                        schema_filter_list(credential),
                    ),
                    QueryType::Attestation => selected(
                        cells,
                        program_id,
                        attestation_filter_list(credential, schema),
                    ),
                },
            ),
        },
    }
}

/// Answers a query over the cells that were fetched: the addresses of the
/// records it asks for, in the order of the cells.
pub fn process_query(args: &Args, authority: &[u8; 32], sub_args: &QueryArgs, cells: &[Cell]) -> (r:
    Result<Vec<[u8; 32]>, RegistryError>)
    ensures
        match r {
            Ok(addresses) => query_answer(
                args.program_id@,
                authority@,
                encode_utf8(sub_args.credential_name@),
                encode_utf8(sub_args.schema_name@),
                sub_args.query_type,
                cells@,
            ) == Ok::<Seq<Seq<u8>>, RegistryError>(address_list(addresses@)),
            Err(e) => query_answer(
                args.program_id@,
                authority@,
                encode_utf8(sub_args.credential_name@),
                encode_utf8(sub_args.schema_name@),
                sub_args.query_type,
                cells@,
            ) == Err::<Seq<Seq<u8>>, RegistryError>(e),
        },
{
    let (credential_pda, _) = match get_credential_pda(
        &args.program_id,
        authority,
        sub_args.credential_name.as_str(),
    ) {
        Ok(found) => found,
        Err(e) => { return Err(e); },
    };
    let (schema_pda, _) = match get_schema_pda(
        &args.program_id,
        &credential_pda,
        sub_args.schema_name.as_str(),
    ) {
        Ok(found) => found,
        Err(e) => { return Err(e); },
    };
    match sub_args.query_type {
        QueryType::Credential => Ok(get_all_credential_addresses(&args.program_id, cells)),
        QueryType::Schema => Ok(
            get_all_schema_addresses(&args.program_id, cells, &credential_pda),
        ),
        QueryType::Attestation => Ok(
            get_all_attestation_addresses(&args.program_id, cells, &credential_pda, &schema_pda),
        ),
    }
}

/// The instruction that is prepared for a credential is carried out: where
/// the address is the derived one and free, the credential is created
/// there, with the authority as its first authorized signer.
pub proof fn lemma_prepared_credential_is_created(
    state: State,
    program_id: Seq<u8>,
    payer: Seq<u8>,
    authority: Seq<u8>,
    credential: Seq<u8>,
    bump: u8,
    name: Seq<u8>,
)
    requires
        authority.len() == 32,
        derivation(credential_seeds(authority, name), program_id) == Ok::<
            (Seq<u8>, u8),
            RegistryError,
        >((credential, bump)),
        !state.contains_key(credential),
    ensures
        outcome(
            state,
            program_id,
            Instruction::CreateCredential,
            credential_prepared(payer, authority, credential, name).accounts,
            credential_prepared(payer, authority, credential, name).data,
        ) == Ok::<CreationView, RegistryError>(
            CreationView {
                address: credential,
                seeds: credential_seeds(authority, name),
                bump,
                owner: program_id,
                payer,
                space: (41 + name.len() + 32) as nat,
                data: (CredentialView {
                    authority,
                    name,
                    authorized_signers: seq![authority],
                }).encoded(),
            },
        ),
{
    let prepared = credential_prepared(payer, authority, credential, name);
    let accounts = loaded_list(state, prepared.accounts);
    let empty = Seq::<u8>::empty();
    assert(credential_seeds(authority, name)[2] == name);
    assert(name.len() <= 32);
    assert(empty + prefixed(name) + empty =~= prefixed(name));
    lemma_take_prefixed_written(empty, name, empty);
    lemma_prefixed_len(name);
    assert(credential_payload(prepared.data) == Some(name));
    assert(accounts[0].is_signer && accounts[2].is_signer);
    assert(!accounts[1].occupied());
    lemma_credential_roundtrip(
        CredentialView { authority, name, authorized_signers: seq![authority] },
    );
}

/// The instruction that is prepared for a schema is carried out: where the
/// credential stands and is the authority's, and the address is the
/// derived one and free, the schema is created there at version 1, not
/// paused.
pub proof fn lemma_prepared_schema_is_created(
    state: State,
    program_id: Seq<u8>,
    payer: Seq<u8>,
    authority: Seq<u8>,
    credential: Seq<u8>,
    schema: Seq<u8>,
    bump: u8,
    payload: SchemaPayload,
)
    requires
        credential.len() == 32,
        payload.name.len() <= u32::MAX,
        payload.description.len() <= u32::MAX,
        payload.layout.len() <= u32::MAX,
        payload.field_names.len() <= u32::MAX,
        credential_fault(program_id, loaded(state, credential, false, false)) is None,
        credential_decoding(loaded(state, credential, false, false).data)->Ok_0.authority
            == authority,
        derivation(schema_seeds(credential, payload.name), program_id) == Ok::<
            (Seq<u8>, u8),
            RegistryError,
        >((schema, bump)),
        !state.contains_key(schema),
    ensures
        ({
            let prepared = schema_prepared(
                payer,
                authority,
                credential,
                schema,
                payload.name,
                payload.description,
                payload.layout,
                payload.field_names,
            );
            let record = SchemaView {
                credential,
                version: 1,
                is_paused: false,
                name: payload.name,
                description: payload.description,
                layout: payload.layout,
                field_names: payload.field_names,
            };
            outcome(state, program_id, Instruction::CreateSchema, prepared.accounts, prepared.data)
                == Ok::<CreationView, RegistryError>(
                CreationView {
                    address: schema,
                    seeds: schema_seeds(credential, payload.name),
                    bump,
                    owner: program_id,
                    payer,
                    space: record.encoded().len(),
                    data: record.encoded(),
                },
            )
        }),
{
    let prepared = schema_prepared(
        payer,
        authority,
        credential,
        schema,
        payload.name,
        payload.description,
        payload.layout,
        payload.field_names,
    );
    let accounts = loaded_list(state, prepared.accounts);
    let empty = Seq::<u8>::empty();
    let n = prefixed(payload.name);
    let d = prefixed(payload.description);
    let l = prefixed(payload.layout);
    let f = prefixed(payload.field_names);
    lemma_regroup(empty, n, d, l, f);
    lemma_prefixed_len(payload.name);
    lemma_prefixed_len(payload.description);
    lemma_prefixed_len(payload.layout);
    lemma_prefixed_len(payload.field_names);
    lemma_take_prefixed_written(empty, payload.name, d + l + f);
    lemma_take_prefixed_written(empty + n, payload.description, l + f);
    lemma_take_prefixed_written(empty + n + d, payload.layout, f);
    lemma_take_prefixed_written(empty + n + d + l, payload.field_names, empty);
    assert(prepared.data =~= empty + n + d + l + f);
    assert(schema_payload(prepared.data) == Some(payload));
    assert(accounts[0].is_signer && accounts[1].is_signer);
    assert(accounts[2] == loaded(state, credential, false, false));
    assert(!accounts[3].occupied());
}

/// The instruction that is prepared for a request is carried out: where
/// the credential and its running schema stand, and the address is the
/// derived one and free, the request is created there with the payer as
/// its signer, in a cell of `141 + len(data)` bytes.
pub proof fn lemma_prepared_request_is_created(
    state: State,
    program_id: Seq<u8>,
    payer: Seq<u8>,
    authority: Seq<u8>,
    credential: Seq<u8>,
    schema: Seq<u8>,
    request: Seq<u8>,
    bump: u8,
    payload: Payload,
)
    requires
        payer.len() == 32,
        credential.len() == 32,
        schema.len() == 32,
        payload.nonce.len() == 32,
        payload.data.len() <= u32::MAX,
        parent_fault(
            program_id,
            loaded(state, credential, false, false),
            loaded(state, schema, false, false),
        ) is None,
        derivation(request_seeds(credential, schema, payload.nonce), program_id) == Ok::<
            (Seq<u8>, u8),
            RegistryError,
        >((request, bump)),
        !state.contains_key(request),
    ensures
        ({
            let prepared = claim_prepared(
                Instruction::CreateRequest,
                payer,
                read_only(authority),
                credential,
                schema,
                request,
                payload,
            );
            outcome(state, program_id, Instruction::CreateRequest, prepared.accounts, prepared.data)
                == Ok::<CreationView, RegistryError>(
                CreationView {
                    address: request,
                    seeds: request_seeds(credential, schema, payload.nonce),
                    bump,
                    owner: program_id,
                    payer,
                    space: (141 + payload.data.len()) as nat,
                    data: (RequestView {
                        credential,
                        schema,
                        signer: payer,
                        nonce: payload.nonce,
                        data: payload.data,
                        expiry: payload.expiry,
                    }).encoded(),
                },
            )
        }),
{
    let prepared = claim_prepared(
        Instruction::CreateRequest,
        payer,
        read_only(authority),
        credential,
        schema,
        request,
        payload,
    );
    let accounts = loaded_list(state, prepared.accounts);
    lemma_payload_roundtrip(payload);
    assert(accounts.len() == 6);
    assert(accounts[0].is_signer && accounts[0].key == payer);
    assert(accounts[2] == loaded(state, credential, false, false));
    assert(accounts[3] == loaded(state, schema, false, false));
    assert(accounts[2].key == credential && accounts[3].key == schema);
    assert(accounts[4].key == request);
    assert(!accounts[4].occupied());
    assert(payload_well_formed(prepared.data));
    assert(payload_of(prepared.data) == payload);
    assert(crate::processor::request_draft(program_id, accounts, prepared.data) is Ok);
    lemma_frame_roundtrip(
        (RequestView {
            credential,
            schema,
            signer: payer,
            nonce: payload.nonce,
            data: payload.data,
            expiry: payload.expiry,
        }).frame(),
    );
}

/// The instruction that is prepared for an attestation is carried out:
/// where the credential and its running schema stand, the authority may
/// sign under the credential, and the address is the derived one and free,
/// the attestation is created there with the authority as its signer.
pub proof fn lemma_prepared_attestation_is_created(
    state: State,
    program_id: Seq<u8>,
    payer: Seq<u8>,
    authority: Seq<u8>,
    credential: Seq<u8>,
    schema: Seq<u8>,
    attestation: Seq<u8>,
    bump: u8,
    payload: Payload,
)
    requires
        authority.len() == 32,
        credential.len() == 32,
        schema.len() == 32,
        payload.nonce.len() == 32,
        payload.data.len() <= u32::MAX,
        parent_fault(
            program_id,
            loaded(state, credential, false, false),
            loaded(state, schema, false, false),
        ) is None,
        credential_decoding(loaded(state, credential, false, false).data)->Ok_0.allows(authority),
        derivation(
            attestation_seeds(credential, authority, schema, payload.nonce),
            program_id,
        ) == Ok::<(Seq<u8>, u8), RegistryError>((attestation, bump)),
        !state.contains_key(attestation),
    ensures
        ({
            let prepared = claim_prepared(
                Instruction::CreateAttestation,
                payer,
                signing(authority),
                credential,
                schema,
                attestation,
                payload,
            );
            outcome(
                state,
                program_id,
                Instruction::CreateAttestation,
                prepared.accounts,
                prepared.data,
            ) == Ok::<CreationView, RegistryError>(
                CreationView {
                    address: attestation,
                    seeds: attestation_seeds(credential, authority, schema, payload.nonce),
                    bump,
                    owner: program_id,
                    payer,
                    space: (141 + payload.data.len()) as nat,
                    data: (AttestationView {
                        nonce: payload.nonce,
                        credential,
                        schema,
                        data: payload.data,
                        signer: authority,
                        expiry: payload.expiry,
                    }).encoded(),
                },
            )
        }),
{
    let prepared = claim_prepared(
        Instruction::CreateAttestation,
        payer,
        signing(authority),
        credential,
        schema,
        attestation,
        payload,
    );
    let accounts = loaded_list(state, prepared.accounts);
    lemma_payload_roundtrip(payload);
    assert(accounts.len() == 6);
    assert(accounts[0].is_signer && accounts[1].is_signer);
    assert(accounts[0].key == payer && accounts[1].key == authority);
    assert(accounts[2] == loaded(state, credential, false, false));
    assert(accounts[3] == loaded(state, schema, false, false));
    assert(accounts[2].key == credential && accounts[3].key == schema);
    assert(accounts[4].key == attestation);
    assert(!accounts[4].occupied());
    assert(payload_well_formed(prepared.data));
    assert(payload_of(prepared.data) == payload);
    assert(crate::processor::attestation_draft(program_id, accounts, prepared.data) is Ok);
    lemma_frame_roundtrip(
        (AttestationView {
            nonce: payload.nonce,
            credential,
            schema,
            data: payload.data,
            signer: authority,
            expiry: payload.expiry,
        }).frame(),
    );
}

} // verus!
