//! Deterministic addresses.
//!
//! The address of a record is found from an ordered list of seeds, the
//! first of which is the kind's tag, and the identity of the program that
//! owns the registry. The order and the exact bytes of the seeds define the
//! identity of the record: another order is another address.

use crate::error::RegistryError;
use crate::kind::RecordKind;
use crate::wire::{concatenated, lemma_concatenated_prepend};
use solana_program::pubkey::Pubkey;
use std::str::FromStr;
use vstd::prelude::*;
use vstd::slice::slice_to_vec;
use vstd::string::StringSliceAdditionalSpecFns;

verus! {

/// Most seeds that a derivation takes, the bump seed not counted.
pub const MAX_SEEDS: usize = 15;

/// Most bytes that one seed may hold.
pub const MAX_SEED_LEN: usize = 32;

/// The version byte that closes the seed list of a schema.
pub const SCHEMA_VERSION: u8 = 1;

/// The address and bump seed that the search for a program-derived address
/// ends with for `seeds` under `program_id`, or `None` where it finds none.
pub uninterp spec fn program_address(seeds: Seq<Seq<u8>>, program_id: Seq<u8>) -> Option<
    (Seq<u8>, u8),
>;

/// The seeds as byte strings.
pub open spec fn seed_list(seeds: &Vec<Vec<u8>>) -> Seq<Seq<u8>> {
    Seq::new(seeds@.len(), |i: int| seeds@[i]@)
}

/// Whether a seed list is one that a derivation takes: at most
/// [`MAX_SEEDS`] seeds of at most [`MAX_SEED_LEN`] bytes each.
pub open spec fn seeds_fit(seeds: Seq<Seq<u8>>) -> bool {
    &&& seeds.len() <= 15
    &&& forall|i: int| 0 <= i < seeds.len() ==> (#[trigger] seeds[i]).len() <= 32
}

/// The seeds of a credential: its tag, its authority, its name.
pub open spec fn credential_seeds(authority: Seq<u8>, name: Seq<u8>) -> Seq<Seq<u8>> {
    seq![RecordKind::Credential.tag(), authority, name]
}

/// The seeds of a schema: its tag, its credential, its name, the version byte.
pub open spec fn schema_seeds(credential: Seq<u8>, name: Seq<u8>) -> Seq<Seq<u8>> {
    seq![RecordKind::Schema.tag(), credential, name, seq![1u8]]
}

/// The seeds of an attestation: its tag, then credential, signer, schema
/// and nonce, the signer standing before the schema.
pub open spec fn attestation_seeds(
    credential: Seq<u8>,
    signer: Seq<u8>,
    schema: Seq<u8>,
    nonce: Seq<u8>,
) -> Seq<Seq<u8>> {
    seq![RecordKind::Attestation.tag(), credential, signer, schema, nonce]
}

/// The seeds of a request: its tag, then credential, schema and nonce. The
/// signer is no seed.
pub open spec fn request_seeds(credential: Seq<u8>, schema: Seq<u8>, nonce: Seq<u8>) -> Seq<
    Seq<u8>,
> {
    seq![RecordKind::Request.tag(), credential, schema, nonce]
}

/// What a derivation makes of the outcome of the search.
pub open spec fn outcome_of(found: Option<(Seq<u8>, u8)>) -> Result<(Seq<u8>, u8), RegistryError> {
    match found {
        Some(pair) => Ok(pair),
        None => Err(RegistryError::AddressDerivationExhausted),
    }
}

/// The address and bump of a seed list under a program: a list that does
/// not fit is malformed input, and a search that finds nothing is exhausted.
pub open spec fn derivation(seeds: Seq<Seq<u8>>, program_id: Seq<u8>) -> Result<
    (Seq<u8>, u8),
    RegistryError,
> {
    if seeds_fit(seeds) {
        outcome_of(program_address(seeds, program_id))
    } else {
        Err(RegistryError::InvalidInstructionData)
    }
}

/// Whether an executable result is the modelled one.
pub open spec fn is_derived(
    r: Result<([u8; 32], u8), RegistryError>,
    expected: Result<(Seq<u8>, u8), RegistryError>,
) -> bool {
    match r {
        Ok((address, bump)) => expected == Ok::<(Seq<u8>, u8), RegistryError>((address@, bump)),
        Err(e) => expected == Err::<(Seq<u8>, u8), RegistryError>(e),
    }
}

/// Searches for the program-derived address of `seeds` with
/// `Pubkey::try_find_program_address`. The contract gives the outcome its
/// name, [`program_address`], and claims nothing else of it.
#[verifier::external_body]
fn find_program_address(seeds: &Vec<Vec<u8>>, program_id: &[u8; 32]) -> (found: Option<
    ([u8; 32], u8),
>)
    ensures
        match found {
            Some((address, bump)) => program_address(seed_list(seeds), program_id@) == Some(
                (address@, bump),
            ),
            None => program_address(seed_list(seeds), program_id@) is None,
        },
{
    let parts: Vec<&[u8]> = seeds.iter().map(|seed| seed.as_slice()).collect();
    let id = Pubkey::new_from_array(*program_id);
    Pubkey::try_find_program_address(&parts, &id).map(|(address, bump)| (address.to_bytes(), bump))
}

/// Turns the outcome of a search into the result of a derivation: what was
/// found, or the error for an exhausted search.
pub fn derivation_outcome(found: Option<([u8; 32], u8)>) -> (r: Result<
    ([u8; 32], u8),
    RegistryError,
>)
    ensures
        match found {
            Some(pair) => r == Ok::<([u8; 32], u8), RegistryError>(pair),
            None => r == Err::<([u8; 32], u8), RegistryError>(
                RegistryError::AddressDerivationExhausted,
            ),
        },
{
    match found {
        Some(pair) => Ok(pair),
        None => Err(RegistryError::AddressDerivationExhausted),
    }
}

/// Whether every seed is short enough and the seeds are few enough.
pub fn check_seeds(seeds: &Vec<Vec<u8>>) -> (fit: bool)
    ensures
        fit == seeds_fit(seed_list(seeds)),
{
    if seeds.len() > MAX_SEEDS {
        return false;
    }
    let mut i: usize = 0;
    while i < seeds.len()
        invariant
            i <= seeds@.len(),
            forall|j: int| 0 <= j < i ==> (#[trigger] seed_list(seeds)[j]).len() <= 32,
        decreases seeds@.len() - i,
    {
        if seeds[i].len() > MAX_SEED_LEN {
            assert(seed_list(seeds)[i as int].len() > 32);
            return false;
        }
        i += 1;
    }
    true
}

/// Derives the address and bump seed of `seeds` under `program_id`.
///
/// The search tries the bump seeds from 255 downward and stops at the first
/// whose address no private key can belong to. The same seeds under the
/// same program always give the same result. A seed list that does not fit
/// is rejected as malformed; a search that finds no address ends in
/// `AddressDerivationExhausted`.
pub fn derive_address(seeds: &Vec<Vec<u8>>, program_id: &[u8; 32]) -> (r: Result<
    ([u8; 32], u8),
    RegistryError,
>)
    ensures
        is_derived(r, derivation(seed_list(seeds), program_id@)),
{
    if !check_seeds(seeds) {
        return Err(RegistryError::InvalidInstructionData);
    }
    derivation_outcome(find_program_address(seeds, program_id))
}

/// The seed list of a credential.
pub fn credential_seed_list(authority: &[u8; 32], name: &[u8]) -> (seeds: Vec<Vec<u8>>)
    ensures
        seed_list(&seeds) == credential_seeds(authority@, name@),
{
    let mut seeds: Vec<Vec<u8>> = Vec::new();
    seeds.push(RecordKind::Credential.seed_tag());
    seeds.push(slice_to_vec(authority.as_slice()));
    seeds.push(slice_to_vec(name));
    assert(seed_list(&seeds) =~= credential_seeds(authority@, name@));
    seeds
}

/// The seed list of a schema.
pub fn schema_seed_list(credential: &[u8; 32], name: &[u8]) -> (seeds: Vec<Vec<u8>>)
    ensures
        seed_list(&seeds) == schema_seeds(credential@, name@),
{
    let mut seeds: Vec<Vec<u8>> = Vec::new();
    seeds.push(RecordKind::Schema.seed_tag());
    seeds.push(slice_to_vec(credential.as_slice()));
    seeds.push(slice_to_vec(name));
    let version: Vec<u8> = vec![SCHEMA_VERSION];
    assert(version@ =~= seq![1u8]);
    seeds.push(version);
    assert(seed_list(&seeds) =~= schema_seeds(credential@, name@));
    seeds
}

/// The seed list of an attestation.
pub fn attestation_seed_list(
    credential: &[u8; 32],
    signer: &[u8; 32],
    schema: &[u8; 32],
    nonce: &[u8; 32],
) -> (seeds: Vec<Vec<u8>>)
    ensures
        seed_list(&seeds) == attestation_seeds(credential@, signer@, schema@, nonce@),
{
    let mut seeds: Vec<Vec<u8>> = Vec::new();
    seeds.push(RecordKind::Attestation.seed_tag());
    seeds.push(slice_to_vec(credential.as_slice()));
    seeds.push(slice_to_vec(signer.as_slice()));
    seeds.push(slice_to_vec(schema.as_slice()));
    seeds.push(slice_to_vec(nonce.as_slice()));
    assert(seed_list(&seeds) =~= attestation_seeds(credential@, signer@, schema@, nonce@));
    seeds
}

/// The seed list of a request.
pub fn request_seed_list(credential: &[u8; 32], schema: &[u8; 32], nonce: &[u8; 32]) -> (seeds:
    Vec<Vec<u8>>)
    ensures
        seed_list(&seeds) == request_seeds(credential@, schema@, nonce@),
{
    let mut seeds: Vec<Vec<u8>> = Vec::new();
    seeds.push(RecordKind::Request.seed_tag());
    seeds.push(slice_to_vec(credential.as_slice()));
    seeds.push(slice_to_vec(schema.as_slice()));
    seeds.push(slice_to_vec(nonce.as_slice()));
    assert(seed_list(&seeds) =~= request_seeds(credential@, schema@, nonce@));
    seeds
}

/// The address of the credential that `authority` holds under `credential_name`.
pub fn get_credential_pda(program_id: &[u8; 32], authority: &[u8; 32], credential_name: &str) -> (r:
    Result<([u8; 32], u8), RegistryError>)
    ensures
        is_derived(
            r,
            derivation(credential_seeds(authority@, credential_name.spec_bytes()), program_id@),
        ),
{
    let seeds = credential_seed_list(authority, credential_name.as_bytes());
    derive_address(&seeds, program_id)
}

/// The address of the schema that a credential holds under `schema_name`.
pub fn get_schema_pda(program_id: &[u8; 32], credential_pda: &[u8; 32], schema_name: &str) -> (r:
    Result<([u8; 32], u8), RegistryError>)
    ensures
        is_derived(
            r,
            derivation(schema_seeds(credential_pda@, schema_name.spec_bytes()), program_id@),
        ),
{
    let seeds = schema_seed_list(credential_pda, schema_name.as_bytes());
    derive_address(&seeds, program_id)
}

/// The address of the attestation that `authority` signed under a
/// credential and a schema for the recipient `nonce`.
pub fn get_attestation_pda(
    program_id: &[u8; 32],
    credential_pda: &[u8; 32],
    schema_pda: &[u8; 32],
    authority: &[u8; 32],
    nonce: &[u8; 32],
) -> (r: Result<([u8; 32], u8), RegistryError>)
    ensures
        is_derived(
            r,
            derivation(
                attestation_seeds(credential_pda@, authority@, schema_pda@, nonce@),
                program_id@,
            ),
        ),
{
    let seeds = attestation_seed_list(credential_pda, authority, schema_pda, nonce);
    derive_address(&seeds, program_id)
}

/// The address of the request under a credential and a schema for the
/// recipient `nonce`.
pub fn get_request_pda(
    program_id: &[u8; 32],
    credential_pda: &[u8; 32],
    schema_pda: &[u8; 32],
    nonce: &[u8; 32],
) -> (r: Result<([u8; 32], u8), RegistryError>)
    ensures
        is_derived(
            r,
            derivation(request_seeds(credential_pda@, schema_pda@, nonce@), program_id@),
        ),
{
    let seeds = request_seed_list(credential_pda, schema_pda, nonce);
    derive_address(&seeds, program_id)
}

/// The 32 bytes that a text stands for in base 58, or `None` where it
/// stands for no address.
pub uninterp spec fn base58_address(text: Seq<char>) -> Option<Seq<u8>>;

/// Reads an address from its base-58 text with `Pubkey::from_str`. The
/// contract gives the outcome its name, [`base58_address`], and claims
/// nothing else of it.
#[verifier::external_body]
fn parse_pubkey(text: &str) -> (found: Option<[u8; 32]>)
    ensures
        match found {
            Some(address) => base58_address(text@) == Some(address@),
            None => base58_address(text@) is None,
        },
{
    Pubkey::from_str(text).ok().map(|key| key.to_bytes())
}

/// Turns the outcome of reading an address into a result: the address, or
/// the error for a text that is none.
pub fn parsed_address(found: Option<[u8; 32]>) -> (r: Result<[u8; 32], RegistryError>)
    ensures
        match found {
            Some(address) => r == Ok::<[u8; 32], RegistryError>(address),
            None => r == Err::<[u8; 32], RegistryError>(RegistryError::InvalidInstructionData),
        },
{
    match found {
        Some(address) => Ok(address),
        None => Err(RegistryError::InvalidInstructionData),
    }
}

/// Reads an address from its base-58 text. A text that stands for no
/// address is malformed input.
pub fn parse_address(text: &str) -> (r: Result<[u8; 32], RegistryError>)
    ensures
        match base58_address(text@) {
            Some(address) => r is Ok && r->Ok_0@ == address,
            None => r == Err::<[u8; 32], RegistryError>(RegistryError::InvalidInstructionData),
        },
{
    parsed_address(parse_pubkey(text))
}

/// Two results of one derivation are the same result: the address and the
/// bump depend on the seeds and the program alone.
pub proof fn lemma_derivation_deterministic(
    seeds: Seq<Seq<u8>>,
    program_id: Seq<u8>,
    first: Result<([u8; 32], u8), RegistryError>,
    second: Result<([u8; 32], u8), RegistryError>,
)
    requires
        is_derived(first, derivation(seeds, program_id)),
        is_derived(second, derivation(seeds, program_id)),
    ensures
        first is Ok <==> second is Ok,
        first is Ok ==> first->Ok_0.0@ == second->Ok_0.0@ && first->Ok_0.1 == second->Ok_0.1,
        first is Err ==> first->Err_0 == second->Err_0,
{
}

/// Seed lists that differ only in the kind tag are different lists, and
/// stay different when their seeds are written one behind the other.
pub proof fn lemma_kinds_have_separate_seeds(a: RecordKind, b: RecordKind, rest: Seq<Seq<u8>>)
    requires
        a != b,
    ensures
        seq![a.tag()] + rest != seq![b.tag()] + rest,
        concatenated(seq![a.tag()] + rest) != concatenated(seq![b.tag()] + rest),
{
    let left = seq![a.tag()] + rest;
    let right = seq![b.tag()] + rest;
    assert(left[0] == a.tag());
    assert(right[0] == b.tag());
    assert(a.tag().len() != b.tag().len());
    lemma_concatenated_prepend(a.tag(), rest);
    lemma_concatenated_prepend(b.tag(), rest);
    assert(concatenated(left).len() != concatenated(right).len());
}

} // verus!
