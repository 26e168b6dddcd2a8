//! The handlers that create records.
//!
//! Every handler follows one path: check what was supplied, derive the
//! address from the seeds of the record, hold the supplied target account
//! against that address, and lay out the record for a storage cell of
//! exactly its size. A handler changes nothing itself: it hands back the
//! [`Creation`] to carry out, or the first fault it found.

use crate::account::{account_list, AccountInfo, AccountInfoView};
use crate::address::{
    attestation_seed_list, attestation_seeds, credential_seed_list, credential_seeds, derivation,
    derive_address, is_derived, request_seed_list, request_seeds, schema_seed_list, schema_seeds,
    seed_list,
};
use crate::claim::{Attestation, AttestationView, Request, RequestView};
use crate::credential::{credential_decoding, Credential, CredentialView};
use crate::error::RegistryError;
use crate::instruction::{payload_of, payload_well_formed, CreateRequestArgs};
use crate::schema::{schema_decoding, Schema, SchemaView};
use crate::wire::{lemma_take_prefixed_sound, read_prefixed, same_key, take_prefixed};
use vstd::prelude::*;
use vstd::slice::{axiom_spec_len, slice_to_vec};

verus! {

/// A record that passed every check but that of its address.
#[derive(Debug)]
pub struct Draft {
    /// The seeds of the record's address.
    pub seeds: Vec<Vec<u8>>,
    /// The account that was supplied for the record.
    pub target: [u8; 32],
    /// Whether that account is allocated already.
    pub occupied: bool,
    /// Who pays for the storage.
    pub payer: [u8; 32],
    /// The stored form of the record.
    pub record: Vec<u8>,
}

/// A draft as plain values.
pub struct DraftView {
    pub seeds: Seq<Seq<u8>>,
    pub target: Seq<u8>,
    pub occupied: bool,
    pub payer: Seq<u8>,
    pub record: Seq<u8>,
}

/// A storage cell to allocate and fill.
#[derive(Debug)]
pub struct Creation {
    /// The address of the cell.
    pub address: [u8; 32],
    /// The seeds that the address was derived from.
    pub seeds: Vec<Vec<u8>>,
    /// The bump seed that the address was found with.
    pub bump: u8,
    /// The program that is to own the cell.
    pub owner: [u8; 32],
    /// Who pays for the storage.
    pub payer: [u8; 32],
    /// The size of the cell: exactly the length of `data`.
    pub space: usize,
    /// What the cell is to hold.
    pub data: Vec<u8>,
}

/// A creation as plain values.
pub struct CreationView {
    pub address: Seq<u8>,
    pub seeds: Seq<Seq<u8>>,
    pub bump: u8,
    pub owner: Seq<u8>,
    pub payer: Seq<u8>,
    pub space: nat,
    pub data: Seq<u8>,
}

impl Draft {
    /// The draft as plain values.
    pub open spec fn view(&self) -> DraftView {
        DraftView {
            seeds: seed_list(&self.seeds),
            target: self.target@,
            occupied: self.occupied,
            payer: self.payer@,
            record: self.record@,
        }
    }
}

impl Creation {
    /// The creation as plain values.
    pub open spec fn view(&self) -> CreationView {
        CreationView {
            address: self.address@,
            seeds: seed_list(&self.seeds),
            bump: self.bump,
            owner: self.owner@,
            payer: self.payer@,
            space: self.space as nat,
            data: self.data@,
        }
    }
}

/// Whether a handler's draft is the modelled one.
pub open spec fn is_draft(r: Result<Draft, RegistryError>, expected: Result<DraftView, RegistryError>)
    -> bool {
    match r {
        Ok(draft) => expected == Ok::<DraftView, RegistryError>(draft@),
        Err(e) => expected == Err::<DraftView, RegistryError>(e),
    }
}

/// Whether a handler's result is the modelled one.
pub open spec fn is_creation(
    r: Result<Creation, RegistryError>,
    expected: Result<CreationView, RegistryError>,
) -> bool {
    match r {
        Ok(creation) => expected == Ok::<CreationView, RegistryError>(creation@),
        Err(e) => expected == Err::<CreationView, RegistryError>(e),
    }
}

/// What becomes of a draft once its address is derived. A failed
/// derivation fails the instruction; a target other than the derived
/// address is `InvalidRequestData`; a target that is allocated already is
/// `AlreadyExists`; otherwise the cell is created for `program_id`, sized
/// exactly to the record, under the seeds and the bump of its address.
pub open spec fn settlement(
    draft: DraftView,
    program_id: Seq<u8>,
    derived: Result<(Seq<u8>, u8), RegistryError>,
) -> Result<CreationView, RegistryError> {
    match derived {
        Err(e) => Err(e),
        Ok((address, bump)) => if address != draft.target {
            Err(RegistryError::InvalidRequestData)
        } else if draft.occupied {
            Err(RegistryError::AlreadyExists)
        } else {
            Ok(
                CreationView {
                    address,
                    seeds: draft.seeds,
                    bump,
                    owner: program_id,
                    payer: draft.payer,
                    space: draft.record.len(),
                    data: draft.record,
                },
            )
        },
    }
}

/// What a handler answers: the fault of the draft, or the settlement of
/// the draft with the address that its seeds derive.
pub open spec fn handled(draft: Result<DraftView, RegistryError>, program_id: Seq<u8>) -> Result<
    CreationView,
    RegistryError,
> {
    match draft {
        Err(e) => Err(e),
        Ok(d) => settlement(d, program_id, derivation(d.seeds, program_id)),
    }
}

/// Settles a draft with the outcome of its derivation.
pub fn settle_creation(
    draft: Draft,
    program_id: &[u8; 32],
    derived: Result<([u8; 32], u8), RegistryError>,
) -> (r: Result<Creation, RegistryError>)
    ensures
        forall|expected: Result<(Seq<u8>, u8), RegistryError>|
            is_derived(derived, expected) ==> is_creation(
                r,
                settlement(draft@, program_id@, expected),
            ),
{
    match derived {
        Err(e) => Err(e),
        Ok((address, bump)) => {
            if !same_key(&address, &draft.target) {
                Err(RegistryError::InvalidRequestData)
            } else if draft.occupied {
                Err(RegistryError::AlreadyExists)
            } else {
                let space: usize = draft.record.len();
                Ok(
                    Creation {
                        address,
                        seeds: draft.seeds,
                        bump,
                        owner: *program_id,
                        payer: draft.payer,
                        space,
                        data: draft.record,
                    },
                )
            }
        },
    }
}

/// Derives the address of a draft and settles the draft with it.
pub fn complete(draft: Draft, program_id: &[u8; 32]) -> (r: Result<Creation, RegistryError>)
    ensures
        is_creation(r, handled(Ok(draft@), program_id@)),
{
    let derived = derive_address(&draft.seeds, program_id);
    settle_creation(draft, program_id, derived)
}

/// The fault of a credential account: one that the program does not own,
/// or that holds no credential, is `InvalidCredential`.
pub open spec fn credential_fault(program_id: Seq<u8>, credential: AccountInfoView) -> Option<
    RegistryError,
> {
    if credential.owner != program_id || credential_decoding(credential.data) is Err {
        Some(RegistryError::InvalidCredential)
    } else {
        None
    }
}

/// The fault of a credential account and a schema account that a claim
/// refers to. After the credential's own fault: a schema account that the
/// program does not own, or that holds no schema, is `InvalidSchema`; a
/// schema of another credential is `InvalidCredential`; a paused schema is
/// `InvalidSchema`.
pub open spec fn parent_fault(
    program_id: Seq<u8>,
    credential: AccountInfoView,
    schema: AccountInfoView,
) -> Option<RegistryError> {
    if credential_fault(program_id, credential) is Some {
        credential_fault(program_id, credential)
    } else if schema.owner != program_id || schema_decoding(schema.data) is Err {
        Some(RegistryError::InvalidSchema)
    } else if schema_decoding(schema.data)->Ok_0.credential != credential.key {
        Some(RegistryError::InvalidCredential)
    } else if schema_decoding(schema.data)->Ok_0.is_paused {
        Some(RegistryError::InvalidSchema)
    } else {
        None
    }
}

/// Reads the credential that a credential account holds.
pub fn check_credential(program_id: &[u8; 32], credential: &AccountInfo) -> (r: Result<
    Credential,
    RegistryError,
>)
    ensures
        match r {
            Ok(c) => credential_fault(program_id@, credential@) is None && credential_decoding(
                credential.data@,
            ) == Ok::<CredentialView, crate::error::DecodeError>(c@),
            Err(e) => credential_fault(program_id@, credential@) == Some(e),
        },
{
    if !same_key(&credential.owner, program_id) {
        return Err(RegistryError::InvalidCredential);
    }
    match Credential::try_from_bytes(credential.data.as_slice()) {
        Ok(c) => Ok(c),
        Err(_) => Err(RegistryError::InvalidCredential),
    }
}

/// Reads the credential and the schema that a claim refers to, and holds
/// the schema against the credential.
pub fn check_parents(program_id: &[u8; 32], credential: &AccountInfo, schema: &AccountInfo) -> (r:
    Result<(Credential, Schema), RegistryError>)
    ensures
        match r {
            Ok((c, s)) => {
                &&& parent_fault(program_id@, credential@, schema@) is None
                &&& credential_decoding(credential.data@) == Ok::<
                    CredentialView,
                    crate::error::DecodeError,
                >(c@)
                &&& schema_decoding(schema.data@) == Ok::<SchemaView, crate::error::DecodeError>(
                    s@,
                )
            },
            Err(e) => parent_fault(program_id@, credential@, schema@) == Some(e),
        },
{
    let c = match check_credential(program_id, credential) {
        Ok(c) => c,
        Err(e) => { return Err(e); },
    };
    if !same_key(&schema.owner, program_id) {
        return Err(RegistryError::InvalidSchema);
    }
    let s = match Schema::try_from_bytes(schema.data.as_slice()) {
        Ok(s) => s,
        Err(_) => { return Err(RegistryError::InvalidSchema); },
    };
    if !same_key(&s.credential, &credential.key) {
        return Err(RegistryError::InvalidCredential);
    }
    if s.is_paused {
        return Err(RegistryError::InvalidSchema);
    }
    Ok((c, s))
}

/// The draft of a request. The accounts are payer, authority, credential,
/// schema, request and system program; the payer must have signed; the
/// schema must be a running schema of the credential; the payload must be
/// whole. The payer becomes the signer of the request.
pub open spec fn request_draft(
    program_id: Seq<u8>,
    accounts: Seq<AccountInfoView>,
    data: Seq<u8>,
) -> Result<DraftView, RegistryError> {
    if accounts.len() != 6 {
        Err(RegistryError::InvalidAccountsError)
    } else if !accounts[0].is_signer {
        Err(RegistryError::Unauthorized)
    } else if parent_fault(program_id, accounts[2], accounts[3]) is Some {
        Err(parent_fault(program_id, accounts[2], accounts[3])->0)
    } else if !payload_well_formed(data) {
        Err(RegistryError::InvalidInstructionData)
    } else {
        let payload = payload_of(data);
        Ok(
            DraftView {
                seeds: request_seeds(accounts[2].key, accounts[3].key, payload.nonce),
                target: accounts[4].key,
                occupied: accounts[4].occupied(),
                payer: accounts[0].key,
                record: (RequestView {
                    credential: accounts[2].key,
                    schema: accounts[3].key,
                    signer: accounts[0].key,
                    nonce: payload.nonce,
                    data: payload.data,
                    expiry: payload.expiry,
                }).encoded(),
            },
        )
    }
}

/// Checks what a request-creating instruction supplies and drafts the request.
pub fn draft_request(program_id: &[u8; 32], accounts: &[AccountInfo], instruction_data: &[u8]) -> (r:
    Result<Draft, RegistryError>)
    ensures
        is_draft(r, request_draft(program_id@, account_list(accounts@), instruction_data@)),
{
    if accounts.len() != 6 {
        return Err(RegistryError::InvalidAccountsError);
    }
    let payer = &accounts[0];
    let credential = &accounts[2];
    let schema = &accounts[3];
    let target = &accounts[4];
    if !payer.is_signer {
        return Err(RegistryError::Unauthorized);
    }
    match check_parents(program_id, credential, schema) {
        Ok(_) => {},
        Err(e) => { return Err(e); },
    }
    let args = match CreateRequestArgs::try_from_bytes(instruction_data) {
        Ok(args) => args,
        Err(e) => { return Err(e); },
    };
    let nonce: [u8; 32] = match args.nonce() {
        Ok(nonce) => *nonce,
        Err(e) => { return Err(e); },
    };
    let data: Vec<u8> = match args.data() {
        Ok(data) => slice_to_vec(data),
        Err(e) => { return Err(e); },
    };
    let expiry: i64 = match args.expiry() {
        Ok(expiry) => expiry,
        Err(e) => { return Err(e); },
    };
    let request = Request {
        credential: credential.key,
        schema: schema.key,
        signer: payer.key,
        nonce,
        data,
        expiry,
    };
    Ok(
        Draft {
            seeds: request_seed_list(&credential.key, &schema.key, &nonce),
            target: target.key,
            occupied: target.is_occupied(),
            payer: payer.key,
            record: request.to_bytes(),
        },
    )
}

/// Handles the instruction that creates a request.
///
/// The request's address is derived from the credential, the schema and
/// the nonce; the signer is no seed. The cell is sized to
/// `1 + 32 + 32 + 32 + (4 + len(data)) + 32 + 8` bytes.
pub fn process_create_request(
    program_id: &[u8; 32],
    accounts: &[AccountInfo],
    instruction_data: &[u8],
) -> (r: Result<Creation, RegistryError>)
    ensures
        is_creation(
            r,
            handled(
                request_draft(program_id@, account_list(accounts@), instruction_data@),
                program_id@,
            ),
        ),
{
    match draft_request(program_id, accounts, instruction_data) {
        Ok(draft) => complete(draft, program_id),
        Err(e) => Err(e),
    }
}

/// The draft of an attestation. The accounts are payer, authority,
/// credential, schema, attestation and system program; payer and authority
/// must have signed; the schema must be a running schema of the credential;
/// the authority must be one who may sign under the credential; the payload
/// must be whole. The authority becomes the signer of the attestation.
pub open spec fn attestation_draft(
    program_id: Seq<u8>,
    accounts: Seq<AccountInfoView>,
    data: Seq<u8>,
) -> Result<DraftView, RegistryError> {
    if accounts.len() != 6 {
        Err(RegistryError::InvalidAccountsError)
    } else if !accounts[0].is_signer || !accounts[1].is_signer {
        Err(RegistryError::Unauthorized)
    } else if parent_fault(program_id, accounts[2], accounts[3]) is Some {
        Err(parent_fault(program_id, accounts[2], accounts[3])->0)
    } else if !credential_decoding(accounts[2].data)->Ok_0.allows(accounts[1].key) {
        Err(RegistryError::Unauthorized)
    } else if !payload_well_formed(data) {
        Err(RegistryError::InvalidInstructionData)
    } else {
        let payload = payload_of(data);
        Ok(
            DraftView {
                seeds: attestation_seeds(
                    accounts[2].key,
                    accounts[1].key,
                    accounts[3].key,
                    payload.nonce,
                ),
                target: accounts[4].key,
                occupied: accounts[4].occupied(),
                payer: accounts[0].key,
                record: (AttestationView {
                    nonce: payload.nonce,
                    credential: accounts[2].key,
                    schema: accounts[3].key,
                    data: payload.data,
                    signer: accounts[1].key,
                    expiry: payload.expiry,
                }).encoded(),
            },
        )
    }
}

/// Checks what an attestation-creating instruction supplies and drafts the
/// attestation.
pub fn draft_attestation(
    program_id: &[u8; 32],
    accounts: &[AccountInfo],
    instruction_data: &[u8],
) -> (r: Result<Draft, RegistryError>)
    ensures
        is_draft(r, attestation_draft(program_id@, account_list(accounts@), instruction_data@)),
{
    if accounts.len() != 6 {
        return Err(RegistryError::InvalidAccountsError);
    }
    let payer = &accounts[0];
    let authority = &accounts[1];
    let credential = &accounts[2];
    let schema = &accounts[3];
    let target = &accounts[4];
    if !payer.is_signer || !authority.is_signer {
        return Err(RegistryError::Unauthorized);
    }
    let issuer = match check_parents(program_id, credential, schema) {
        Ok((issuer, _)) => issuer,
        Err(e) => { return Err(e); },
    };
    if !issuer.allows(&authority.key) {
        return Err(RegistryError::Unauthorized);
    }
    let args = match CreateRequestArgs::try_from_bytes(instruction_data) {
        Ok(args) => args,
        Err(e) => { return Err(e); },
    };
    let nonce: [u8; 32] = match args.nonce() {
        Ok(nonce) => *nonce,
        Err(e) => { return Err(e); },
    };
    let data: Vec<u8> = match args.data() {
        Ok(data) => slice_to_vec(data),
        Err(e) => { return Err(e); },
    };
    let expiry: i64 = match args.expiry() {
        Ok(expiry) => expiry,
        Err(e) => { return Err(e); },
    };
    let attestation = Attestation {
        nonce,
        credential: credential.key,
        schema: schema.key,
        data,
        signer: authority.key,
        expiry,
    };
    Ok(
        Draft {
            seeds: attestation_seed_list(&credential.key, &authority.key, &schema.key, &nonce),
            target: target.key,
            occupied: target.is_occupied(),
            payer: payer.key,
            record: attestation.to_bytes(),
        },
    )
}

/// Handles the instruction that creates an attestation.
///
/// The attestation's address is derived from the credential, the signer,
/// the schema and the nonce, in that order. The expiry is stored as it was
/// supplied: whether it has passed is for the reader of the record to say.
pub fn process_create_attestation(
    program_id: &[u8; 32],
    accounts: &[AccountInfo],
    instruction_data: &[u8],
) -> (r: Result<Creation, RegistryError>)
    ensures
        is_creation(
            r,
            handled(
                attestation_draft(program_id@, account_list(accounts@), instruction_data@),
                program_id@,
            ),
        ),
{
    match draft_attestation(program_id, accounts, instruction_data) {
        Ok(draft) => complete(draft, program_id),
        Err(e) => Err(e),
    }
}

/// The name that a credential-creating payload holds: the payload is the
/// name behind its length, and nothing else.
pub open spec fn credential_payload(data: Seq<u8>) -> Option<Seq<u8>> {
    match take_prefixed(data, 0) {
        Some((name, end)) => if end == data.len() {
            Some(name)
        } else {
            None
        },
        None => None,
    }
}

/// The draft of a credential. The accounts are payer, credential,
/// authority and system program; payer and authority must have signed; the
/// payload must hold a name. The authority is the first authorized signer.
pub open spec fn credential_draft(
    program_id: Seq<u8>,
    accounts: Seq<AccountInfoView>,
    data: Seq<u8>,
) -> Result<DraftView, RegistryError> {
    if accounts.len() != 4 {
        Err(RegistryError::InvalidAccountsError)
    } else if !accounts[0].is_signer || !accounts[2].is_signer {
        Err(RegistryError::Unauthorized)
    } else if credential_payload(data) is None {
        Err(RegistryError::InvalidInstructionData)
    } else {
        let name = credential_payload(data)->0;
        Ok(
            DraftView {
                seeds: credential_seeds(accounts[2].key, name),
                target: accounts[1].key,
                occupied: accounts[1].occupied(),
                payer: accounts[0].key,
                record: (CredentialView {
                    authority: accounts[2].key,
                    name,
                    authorized_signers: seq![accounts[2].key],
                }).encoded(),
            },
        )
    }
}

/// Checks what a credential-creating instruction supplies and drafts the
/// credential.
pub fn draft_credential(
    program_id: &[u8; 32],
    accounts: &[AccountInfo],
    instruction_data: &[u8],
) -> (r: Result<Draft, RegistryError>)
    ensures
        is_draft(r, credential_draft(program_id@, account_list(accounts@), instruction_data@)),
{
    if accounts.len() != 4 {
        return Err(RegistryError::InvalidAccountsError);
    }
    let payer = &accounts[0];
    let target = &accounts[1];
    let authority = &accounts[2];
    if !payer.is_signer || !authority.is_signer {
        return Err(RegistryError::Unauthorized);
    }
    proof {
        axiom_spec_len(instruction_data);
    }
    let name: Vec<u8> = match read_prefixed(instruction_data, 0) {
        Some((name, end)) => {
            if end != instruction_data.len() {
                return Err(RegistryError::InvalidInstructionData);
            }
            name
        },
        None => { return Err(RegistryError::InvalidInstructionData); },
    };
    proof {
        lemma_take_prefixed_sound(instruction_data@, 0);
    }
    let seeds = credential_seed_list(&authority.key, name.as_slice());
    let credential = Credential {
        authority: authority.key,
        name,
        authorized_signers: vec![authority.key],
    };
    assert(credential@.authorized_signers =~= seq![authority.key@]);
    Ok(
        Draft {
            seeds,
            target: target.key,
            occupied: target.is_occupied(),
            payer: payer.key,
            record: credential.to_bytes(),
        },
    )
}

/// Handles the instruction that creates a credential.
///
/// The credential's address is derived from the authority and the name. A
/// name of more than 32 bytes is no seed, and is refused as malformed.
pub fn process_create_credential(
    program_id: &[u8; 32],
    accounts: &[AccountInfo],
    instruction_data: &[u8],
) -> (r: Result<Creation, RegistryError>)
    ensures
        is_creation(
            r,
            handled(
                credential_draft(program_id@, account_list(accounts@), instruction_data@),
                program_id@,
            ),
        ),
{
    match draft_credential(program_id, accounts, instruction_data) {
        Ok(draft) => complete(draft, program_id),
        Err(e) => Err(e),
    }
}

/// What a schema-creating payload holds.
pub struct SchemaPayload {
    pub name: Seq<u8>,
    pub description: Seq<u8>,
    pub layout: Seq<u8>,
    pub field_names: Seq<u8>,
}

/// What a schema-creating payload holds: name, description, layout and
/// field names, each behind its length, and nothing else.
pub open spec fn schema_payload(data: Seq<u8>) -> Option<SchemaPayload> {
    match take_prefixed(data, 0) {
        None => None,
        Some((name, after_name)) => match take_prefixed(data, after_name) {
            None => None,
            Some((description, after_description)) => match take_prefixed(
                data,
                after_description,
            ) {
                None => None,
                Some((layout, after_layout)) => match take_prefixed(data, after_layout) {
                    None => None,
                    Some((field_names, end)) => if end == data.len() {
                        Some(SchemaPayload { name, description, layout, field_names })
                    } else {
                        None
                    },
                },
            },
        },
    }
}

/// The draft of a schema. The accounts are payer, authority, credential,
/// schema and system program; payer and authority must have signed; the
/// credential account must hold a credential of the program; the authority
/// must be the authority of that credential; the payload must be whole.
/// The schema starts at version 1 and is not paused.
pub open spec fn schema_draft(
    program_id: Seq<u8>,
    accounts: Seq<AccountInfoView>,
    data: Seq<u8>,
) -> Result<DraftView, RegistryError> {
    if accounts.len() != 5 {
        Err(RegistryError::InvalidAccountsError)
    } else if !accounts[0].is_signer || !accounts[1].is_signer {
        Err(RegistryError::Unauthorized)
    } else if credential_fault(program_id, accounts[2]) is Some {
        Err(RegistryError::InvalidCredential)
    } else if credential_decoding(accounts[2].data)->Ok_0.authority != accounts[1].key {
        Err(RegistryError::Unauthorized)
    } else if schema_payload(data) is None {
        Err(RegistryError::InvalidInstructionData)
    } else {
        let payload = schema_payload(data)->0;
        Ok(
            DraftView {
                seeds: schema_seeds(accounts[2].key, payload.name),
                target: accounts[3].key,
                occupied: accounts[3].occupied(),
                payer: accounts[0].key,
                record: (SchemaView {
                    credential: accounts[2].key,
                    version: 1,
                    is_paused: false,
                    name: payload.name,
                    description: payload.description,
                    layout: payload.layout,
                    field_names: payload.field_names,
                }).encoded(),
            },
        )
    }
}

/// Checks what a schema-creating instruction supplies and drafts the schema.
pub fn draft_schema(program_id: &[u8; 32], accounts: &[AccountInfo], instruction_data: &[u8]) -> (r:
    Result<Draft, RegistryError>)
    ensures
        is_draft(r, schema_draft(program_id@, account_list(accounts@), instruction_data@)),
{
    if accounts.len() != 5 {
        return Err(RegistryError::InvalidAccountsError);
    }
    let payer = &accounts[0];
    let authority = &accounts[1];
    let credential = &accounts[2];
    let target = &accounts[3];
    if !payer.is_signer || !authority.is_signer {
        return Err(RegistryError::Unauthorized);
    }
    let issuer = match check_credential(program_id, credential) {
        Ok(issuer) => issuer,
        Err(e) => { return Err(e); },
    };
    if !same_key(&issuer.authority, &authority.key) {
        return Err(RegistryError::Unauthorized);
    }
    proof {
        axiom_spec_len(instruction_data);
    }
    let (name, after_name) = match read_prefixed(instruction_data, 0) {
        Some(taken) => taken,
        None => { return Err(RegistryError::InvalidInstructionData); },
    };
    proof {
        lemma_take_prefixed_sound(instruction_data@, 0);
    }
    let (description, after_description) = match read_prefixed(instruction_data, after_name) {
        Some(taken) => taken,
        None => { return Err(RegistryError::InvalidInstructionData); },
    };
    proof {
        lemma_take_prefixed_sound(instruction_data@, after_name as int);
    }
    let (layout, after_layout) = match read_prefixed(instruction_data, after_description) {
        Some(taken) => taken,
        None => { return Err(RegistryError::InvalidInstructionData); },
    };
    proof {
        lemma_take_prefixed_sound(instruction_data@, after_description as int);
    }
    let (field_names, end) = match read_prefixed(instruction_data, after_layout) {
        Some(taken) => taken,
        None => { return Err(RegistryError::InvalidInstructionData); },
    };
    proof {
        lemma_take_prefixed_sound(instruction_data@, after_layout as int);
    }
    if end != instruction_data.len() {
        return Err(RegistryError::InvalidInstructionData);
    }
    let seeds = schema_seed_list(&credential.key, name.as_slice());
    let schema = Schema {
        credential: credential.key,
        version: 1,
        is_paused: false,
        name,
        description,
        layout,
        field_names,
    };
    Ok(
        Draft {
            seeds,
            target: target.key,
            occupied: target.is_occupied(),
            payer: payer.key,
            record: schema.to_bytes(),
        },
    )
}

/// Handles the instruction that creates a schema.
///
/// The schema's address is derived from the credential's address, the
/// schema's name and the version byte 1. Layout and field names are stored
/// as they were supplied.
pub fn process_create_schema(
    program_id: &[u8; 32],
    accounts: &[AccountInfo],
    instruction_data: &[u8],
) -> (r: Result<Creation, RegistryError>)
    ensures
        is_creation(
            r,
            handled(
                schema_draft(program_id@, account_list(accounts@), instruction_data@),
                program_id@,
            ),
        ),
{
    match draft_schema(program_id, accounts, instruction_data) {
        Ok(draft) => complete(draft, program_id),
        Err(e) => Err(e),
    }
}

/// A claim against a schema that belongs to another credential than the
/// one supplied is never drafted: where the accounts are six, the signers
/// signed and both accounts hold what they should, the instruction fails
/// with `InvalidCredential`.
pub proof fn lemma_cross_reference_enforced(
    program_id: Seq<u8>,
    accounts: Seq<AccountInfoView>,
    data: Seq<u8>,
)
    requires
        accounts.len() == 6,
        schema_decoding(accounts[3].data) is Ok,
        schema_decoding(accounts[3].data)->Ok_0.credential != accounts[2].key,
    ensures
        attestation_draft(program_id, accounts, data) is Err,
        request_draft(program_id, accounts, data) is Err,
        handled(attestation_draft(program_id, accounts, data), program_id) is Err,
        handled(request_draft(program_id, accounts, data), program_id) is Err,
        parent_fault(program_id, accounts[2], accounts[3]) == Some(RegistryError::InvalidCredential)
            || parent_fault(program_id, accounts[2], accounts[3]) == Some(
            RegistryError::InvalidSchema,
        ),
        accounts[0].is_signer && accounts[1].is_signer && accounts[2].owner == program_id
            && accounts[3].owner == program_id ==> attestation_draft(program_id, accounts, data)
            == Err::<DraftView, RegistryError>(RegistryError::InvalidCredential),
        accounts[0].is_signer && accounts[2].owner == program_id && accounts[3].owner
            == program_id ==> request_draft(program_id, accounts, data) == Err::<
            DraftView,
            RegistryError,
        >(RegistryError::InvalidCredential),
{
}

/// The instructions that create a record.
#[derive(Clone, Copy, Debug, PartialEq, Eq, Structural)]
pub enum Instruction {
    CreateCredential,
    CreateSchema,
    CreateAttestation,
    CreateRequest,
}

impl Instruction {
    /// The byte that an instruction starts with on the wire.
    pub open spec fn code(self) -> u8 {
        match self {
            Instruction::CreateCredential => 0,
            Instruction::CreateSchema => 1,
            Instruction::CreateAttestation => 2,
            Instruction::CreateRequest => 3,
        }
    }

    /// The byte that an instruction starts with on the wire.
    pub fn code_byte(&self) -> (code: u8)
        ensures
            code == self.code(),
    {
        match self {
            Instruction::CreateCredential => 0,
            Instruction::CreateSchema => 1,
            Instruction::CreateAttestation => 2,
            Instruction::CreateRequest => 3,
        }
    }

    /// The instruction that a leading byte names, if it names one.
    pub open spec fn named(code: u8) -> Option<Instruction> {
        if code == 0 {
            Some(Instruction::CreateCredential)
        } else if code == 1 {
            Some(Instruction::CreateSchema)
        } else if code == 2 {
            Some(Instruction::CreateAttestation)
        } else if code == 3 {
            Some(Instruction::CreateRequest)
        } else {
            None
        }
    }

    /// The instruction that a leading byte names, if it names one.
    pub fn from_code(code: u8) -> (instruction: Option<Instruction>)
        ensures
            instruction == Instruction::named(code),
    {
        match code {
            0 => Some(Instruction::CreateCredential),
            1 => Some(Instruction::CreateSchema),
            2 => Some(Instruction::CreateAttestation),
            3 => Some(Instruction::CreateRequest),
            _ => None,
        }
    }
}

/// A byte names the instruction that it is the code of, and no other.
pub proof fn lemma_instruction_codes(instruction: Instruction, code: u8)
    ensures
        Instruction::named(instruction.code()) == Some(instruction),
        Instruction::named(code) is Some ==> Instruction::named(code)->0.code() == code,
        Instruction::named(code) is None <==> code > 3,
{
}

/// The draft that an instruction makes of what it is supplied.
pub open spec fn draft_of(
    instruction: Instruction,
    program_id: Seq<u8>,
    accounts: Seq<AccountInfoView>,
    data: Seq<u8>,
) -> Result<DraftView, RegistryError> {
    match instruction {
        Instruction::CreateCredential => credential_draft(program_id, accounts, data),
        Instruction::CreateSchema => schema_draft(program_id, accounts, data),
        Instruction::CreateAttestation => attestation_draft(program_id, accounts, data),
        Instruction::CreateRequest => request_draft(program_id, accounts, data),
    }
}

/// Hands an instruction to its handler.
pub fn dispatch(
    instruction: Instruction,
    program_id: &[u8; 32],
    accounts: &[AccountInfo],
    data: &[u8],
) -> (r: Result<Creation, RegistryError>)
    ensures
        is_creation(
            r,
            handled(
                draft_of(instruction, program_id@, account_list(accounts@), data@),
                program_id@,
            ),
        ),
{
    match instruction {
        Instruction::CreateCredential => process_create_credential(program_id, accounts, data),
        Instruction::CreateSchema => process_create_schema(program_id, accounts, data),
        Instruction::CreateAttestation => process_create_attestation(program_id, accounts, data),
        Instruction::CreateRequest => process_create_request(program_id, accounts, data),
    }
}

/// What an instruction on the wire comes to: its first byte names the
/// handler, the rest is the handler's payload. No bytes at all, or a first
/// byte that names no handler, is malformed.
pub open spec fn wire_handled(
    program_id: Seq<u8>,
    accounts: Seq<AccountInfoView>,
    wire: Seq<u8>,
) -> Result<CreationView, RegistryError> {
    if wire.len() == 0 {
        Err(RegistryError::InvalidInstructionData)
    } else {
        match Instruction::named(wire[0]) {
            None => Err(RegistryError::InvalidInstructionData),
            Some(instruction) => handled(
                draft_of(instruction, program_id, accounts, wire.subrange(1, wire.len() as int)),
                program_id,
            ),
        }
    }
}

/// Handles an instruction as it arrives: the first byte names the handler.
pub fn process_instruction(program_id: &[u8; 32], accounts: &[AccountInfo], wire: &[u8]) -> (r:
    Result<Creation, RegistryError>)
    ensures
        is_creation(r, wire_handled(program_id@, account_list(accounts@), wire@)),
{
    if wire.len() == 0 {
        return Err(RegistryError::InvalidInstructionData);
    }
    let instruction = match Instruction::from_code(wire[0]) {
        Some(instruction) => instruction,
        None => { return Err(RegistryError::InvalidInstructionData); },
    };
    dispatch(instruction, program_id, accounts, vstd::slice::slice_subrange(wire, 1, wire.len()))
}

} // verus!
