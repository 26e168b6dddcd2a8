use attestation_registry::account::AccountInfo;
use attestation_registry::address::{
    get_attestation_pda, get_credential_pda, get_request_pda, get_schema_pda,
};
use attestation_registry::claim::{Attestation, Request};
use attestation_registry::credential::Credential;
use attestation_registry::error::RegistryError;
use attestation_registry::instruction::encode_payload;
use attestation_registry::processor::{
    check_credential, check_parents, complete, dispatch, draft_request,
    process_create_attestation, process_create_credential, process_create_request,
    process_create_schema, process_instruction, settle_creation, Draft, Instruction,
};
use attestation_registry::schema::Schema;

const PROGRAM: [u8; 32] = [9u8; 32];
const SYSTEM: [u8; 32] = [0u8; 32];
const PAYER: [u8; 32] = [8u8; 32];
const AUTHORITY: [u8; 32] = [1u8; 32];
const RECIPIENT: [u8; 32] = [7u8; 32];

fn signer(key: [u8; 32]) -> AccountInfo {
    AccountInfo { key, owner: SYSTEM, is_signer: true, is_writable: true, data: vec![] }
}

fn quiet(key: [u8; 32]) -> AccountInfo {
    AccountInfo { key, owner: SYSTEM, is_signer: false, is_writable: false, data: vec![] }
}

fn free(key: [u8; 32]) -> AccountInfo {
    AccountInfo::unallocated(key, false, true)
}

fn stored(key: [u8; 32], data: Vec<u8>) -> AccountInfo {
    AccountInfo { key, owner: PROGRAM, is_signer: false, is_writable: false, data }
}

fn credential_key() -> [u8; 32] {
    get_credential_pda(&PROGRAM, &AUTHORITY, "issuer-1").unwrap().0
}

fn schema_key() -> [u8; 32] {
    get_schema_pda(&PROGRAM, &credential_key(), "jurisdiction").unwrap().0
}

fn credential_account() -> AccountInfo {
    let credential = Credential {
        authority: AUTHORITY,
        name: b"issuer-1".to_vec(),
        authorized_signers: vec![AUTHORITY],
    };
    stored(credential_key(), credential.to_bytes())
}

fn schema_of(credential: [u8; 32], is_paused: bool) -> Schema {
    Schema {
        credential,
        version: 1,
        is_paused,
        name: b"jurisdiction".to_vec(),
        description: b"where".to_vec(),
        layout: vec![12],
        field_names: vec![12, 0, 0, 0, 106, 117, 114, 105, 115, 100, 105, 99, 116, 105, 111, 110],
    }
}

fn schema_account() -> AccountInfo {
    stored(schema_key(), schema_of(credential_key(), false).to_bytes())
}

fn request_key() -> [u8; 32] {
    get_request_pda(&PROGRAM, &credential_key(), &schema_key(), &RECIPIENT).unwrap().0
}

fn attestation_key() -> [u8; 32] {
    get_attestation_pda(&PROGRAM, &credential_key(), &schema_key(), &AUTHORITY, &RECIPIENT)
        .unwrap()
        .0
}

fn request_accounts() -> Vec<AccountInfo> {
    vec![
        signer(PAYER),
        quiet(AUTHORITY),
        credential_account(),
        schema_account(),
        free(request_key()),
        quiet(SYSTEM),
    ]
}

fn attestation_accounts() -> Vec<AccountInfo> {
    vec![
        signer(PAYER),
        signer(AUTHORITY),
        credential_account(),
        schema_account(),
        free(attestation_key()),
        quiet(SYSTEM),
    ]
}

fn payload() -> Vec<u8> {
    encode_payload(&RECIPIENT, &[1, 2, 3], 10_000_000_000)
}

fn name_payload(name: &[u8]) -> Vec<u8> {
    let mut data = (name.len() as u32).to_le_bytes().to_vec();
    data.extend_from_slice(name);
    data
}

fn schema_payload() -> Vec<u8> {
    let mut data = name_payload(b"jurisdiction");
    data.extend(name_payload(b"where"));
    data.extend(name_payload(&[12]));
    data.extend(name_payload(&name_payload(b"jurisdiction")));
    data
}

#[test]
fn request_is_created() {
    let creation = process_create_request(&PROGRAM, &request_accounts(), &payload()).unwrap();
    assert_eq!(creation.address, request_key());
    assert_eq!(creation.owner, PROGRAM);
    assert_eq!(creation.payer, PAYER);
    assert_eq!(creation.space, 1 + 32 + 32 + 32 + (4 + 3) + 32 + 8);
    assert_eq!(creation.data.len(), creation.space);
    assert_eq!(creation.bump, get_request_pda(&PROGRAM, &credential_key(), &schema_key(), &RECIPIENT).unwrap().1);
    let request = Request::try_from_bytes(&creation.data).unwrap();
    assert_eq!(request.credential, credential_key());
    assert_eq!(request.schema, schema_key());
    assert_eq!(request.signer, PAYER);
    assert_eq!(request.nonce, RECIPIENT);
    assert_eq!(request.data, vec![1, 2, 3]);
    assert_eq!(request.expiry, 10_000_000_000);
}

#[test]
fn request_with_empty_data_is_created() {
    let data = encode_payload(&RECIPIENT, &[], 0);
    let creation = process_create_request(&PROGRAM, &request_accounts(), &data).unwrap();
    assert_eq!(creation.space, 141);
}

#[test]
fn wrong_number_of_accounts() {
    let mut accounts = request_accounts();
    accounts.pop();
    assert_eq!(
        process_create_request(&PROGRAM, &accounts, &payload()).err(),
        Some(RegistryError::InvalidAccountsError)
    );
    assert_eq!(
        process_create_attestation(&PROGRAM, &accounts, &payload()).err(),
        Some(RegistryError::InvalidAccountsError)
    );
    assert_eq!(
        process_create_credential(&PROGRAM, &accounts, &payload()).err(),
        Some(RegistryError::InvalidAccountsError)
    );
    assert_eq!(
        process_create_schema(&PROGRAM, &[], &payload()).err(),
        Some(RegistryError::InvalidAccountsError)
    );
}

#[test]
fn payer_must_sign() {
    let mut accounts = request_accounts();
    accounts[0].is_signer = false;
    assert_eq!(
        process_create_request(&PROGRAM, &accounts, &payload()).err(),
        Some(RegistryError::Unauthorized)
    );
}

#[test]
fn target_must_be_the_derived_address() {
    let mut accounts = request_accounts();
    accounts[4] = free([0x42u8; 32]);
    assert_eq!(
        process_create_request(&PROGRAM, &accounts, &payload()).err(),
        Some(RegistryError::InvalidRequestData)
    );
    let mut accounts = attestation_accounts();
    accounts[4] = free(request_key());
    assert_eq!(
        process_create_attestation(&PROGRAM, &accounts, &payload()).err(),
        Some(RegistryError::InvalidRequestData)
    );
}

#[test]
fn target_must_be_free() {
    let mut accounts = request_accounts();
    accounts[4] = stored(request_key(), vec![3u8; 141]);
    assert_eq!(
        process_create_request(&PROGRAM, &accounts, &payload()).err(),
        Some(RegistryError::AlreadyExists)
    );
    let mut accounts = request_accounts();
    accounts[4].owner = PROGRAM;
    assert_eq!(
        process_create_request(&PROGRAM, &accounts, &payload()).err(),
        Some(RegistryError::AlreadyExists)
    );
}

#[test]
fn malformed_payloads_are_refused() {
    let whole = payload();
    for cut in [0usize, 35, 36, 43, whole.len() - 1] {
        assert_eq!(
            process_create_request(&PROGRAM, &request_accounts(), &whole[..cut]).err(),
            Some(RegistryError::InvalidInstructionData)
        );
    }
    let mut greedy = whole.clone();
    greedy[32..36].copy_from_slice(&u32::MAX.to_le_bytes());
    assert_eq!(
        process_create_attestation(&PROGRAM, &attestation_accounts(), &greedy).err(),
        Some(RegistryError::InvalidInstructionData)
    );
}

#[test]
fn credential_account_must_hold_a_credential() {
    let mut accounts = request_accounts();
    accounts[2].owner = SYSTEM;
    assert_eq!(
        process_create_request(&PROGRAM, &accounts, &payload()).err(),
        Some(RegistryError::InvalidCredential)
    );
    let mut accounts = request_accounts();
    accounts[2].data = schema_of(credential_key(), false).to_bytes();
    assert_eq!(
        process_create_request(&PROGRAM, &accounts, &payload()).err(),
        Some(RegistryError::InvalidCredential)
    );
    assert_eq!(
        check_credential(&PROGRAM, &free(credential_key())).err(),
        Some(RegistryError::InvalidCredential)
    );
    assert!(check_credential(&PROGRAM, &credential_account()).is_ok());
}

#[test]
fn schema_account_must_hold_a_schema() {
    let mut accounts = request_accounts();
    accounts[3].owner = [5u8; 32];
    assert_eq!(
        process_create_request(&PROGRAM, &accounts, &payload()).err(),
        Some(RegistryError::InvalidSchema)
    );
    let mut accounts = attestation_accounts();
    accounts[3].data = vec![];
    assert_eq!(
        process_create_attestation(&PROGRAM, &accounts, &payload()).err(),
        Some(RegistryError::InvalidSchema)
    );
}

#[test]
fn schema_of_another_credential_is_refused() {
    let foreign = schema_of([0x33u8; 32], false).to_bytes();
    let mut accounts = attestation_accounts();
    accounts[3].data = foreign.clone();
    assert_eq!(
        process_create_attestation(&PROGRAM, &accounts, &payload()).err(),
        Some(RegistryError::InvalidCredential)
    );
    let mut accounts = request_accounts();
    accounts[3].data = foreign;
    assert_eq!(
        process_create_request(&PROGRAM, &accounts, &payload()).err(),
        Some(RegistryError::InvalidCredential)
    );
    assert_eq!(
        check_parents(&PROGRAM, &accounts[2], &accounts[3]).err(),
        Some(RegistryError::InvalidCredential)
    );
}

#[test]
fn paused_schema_takes_no_claims() {
    let mut accounts = attestation_accounts();
    accounts[3].data = schema_of(credential_key(), true).to_bytes();
    assert_eq!(
        process_create_attestation(&PROGRAM, &accounts, &payload()).err(),
        Some(RegistryError::InvalidSchema)
    );
    accounts[4] = free(request_key());
    assert_eq!(
        process_create_request(&PROGRAM, &accounts, &payload()).err(),
        Some(RegistryError::InvalidSchema)
    );
}

#[test]
fn attestation_is_created() {
    let creation =
        process_create_attestation(&PROGRAM, &attestation_accounts(), &payload()).unwrap();
    assert_eq!(creation.address, attestation_key());
    assert_eq!(creation.space, 144);
    let attestation = Attestation::try_from_bytes(&creation.data).unwrap();
    assert_eq!(attestation.nonce, RECIPIENT);
    assert_eq!(attestation.credential, credential_key());
    assert_eq!(attestation.schema, schema_key());
    assert_eq!(attestation.signer, AUTHORITY);
    assert_eq!(attestation.data, vec![1, 2, 3]);
    assert_eq!(attestation.expiry, 10_000_000_000);
}

#[test]
fn attestation_keeps_a_past_expiry() {
    let data = encode_payload(&RECIPIENT, &[1], -1);
    let creation = process_create_attestation(&PROGRAM, &attestation_accounts(), &data).unwrap();
    assert_eq!(Attestation::try_from_bytes(&creation.data).unwrap().expiry, -1);
}

#[test]
fn attestation_needs_an_authorized_signer() {
    let mut accounts = attestation_accounts();
    accounts[1].is_signer = false;
    assert_eq!(
        process_create_attestation(&PROGRAM, &accounts, &payload()).err(),
        Some(RegistryError::Unauthorized)
    );
    let mut accounts = attestation_accounts();
    accounts[1] = signer([0x66u8; 32]);
    assert_eq!(
        process_create_attestation(&PROGRAM, &accounts, &payload()).err(),
        Some(RegistryError::Unauthorized)
    );
}

#[test]
fn credential_is_created() {
    let accounts = vec![signer(PAYER), free(credential_key()), signer(AUTHORITY), quiet(SYSTEM)];
    let creation =
        process_create_credential(&PROGRAM, &accounts, &name_payload(b"issuer-1")).unwrap();
    assert_eq!(creation.address, credential_key());
    assert_eq!(creation.space, 41 + 8 + 32);
    let credential = Credential::try_from_bytes(&creation.data).unwrap();
    assert_eq!(credential.authority, AUTHORITY);
    assert_eq!(credential.name, b"issuer-1".to_vec());
    assert_eq!(credential.authorized_signers, vec![AUTHORITY]);
}

#[test]
fn credential_faults() {
    let accounts = vec![signer(PAYER), free(credential_key()), quiet(AUTHORITY), quiet(SYSTEM)];
    assert_eq!(
        process_create_credential(&PROGRAM, &accounts, &name_payload(b"issuer-1")).err(),
        Some(RegistryError::Unauthorized)
    );
    let accounts = vec![signer(PAYER), free(credential_key()), signer(AUTHORITY), quiet(SYSTEM)];
    let mut trailing = name_payload(b"issuer-1");
    trailing.push(0);
    assert_eq!(
        process_create_credential(&PROGRAM, &accounts, &trailing).err(),
        Some(RegistryError::InvalidInstructionData)
    );
    assert_eq!(
        process_create_credential(&PROGRAM, &accounts, &[1, 0]).err(),
        Some(RegistryError::InvalidInstructionData)
    );
    assert_eq!(
        process_create_credential(&PROGRAM, &accounts, &name_payload(&[b'x'; 33])).err(),
        Some(RegistryError::InvalidInstructionData)
    );
    assert_eq!(
        process_create_credential(&PROGRAM, &accounts, &name_payload(b"issuer-2")).err(),
        Some(RegistryError::InvalidRequestData)
    );
}

#[test]
fn schema_is_created() {
    let accounts = vec![
        signer(PAYER),
        signer(AUTHORITY),
        credential_account(),
        free(schema_key()),
        quiet(SYSTEM),
    ];
    let creation = process_create_schema(&PROGRAM, &accounts, &schema_payload()).unwrap();
    assert_eq!(creation.address, schema_key());
    let schema = Schema::try_from_bytes(&creation.data).unwrap();
    assert_eq!(schema.credential, credential_key());
    assert_eq!(schema.version, 1);
    assert!(!schema.is_paused);
    assert_eq!(schema.name, b"jurisdiction".to_vec());
    assert_eq!(schema.description, b"where".to_vec());
    assert_eq!(schema.layout, vec![12]);
    assert_eq!(schema.field_names, name_payload(b"jurisdiction"));
    assert_eq!(creation.space, creation.data.len());
}

#[test]
fn schema_faults() {
    let good = vec![
        signer(PAYER),
        signer(AUTHORITY),
        credential_account(),
        free(schema_key()),
        quiet(SYSTEM),
    ];
    let mut accounts = good.clone();
    accounts[1] = signer([0x66u8; 32]);
    assert_eq!(
        process_create_schema(&PROGRAM, &accounts, &schema_payload()).err(),
        Some(RegistryError::Unauthorized)
    );
    let mut accounts = good.clone();
    accounts[2] = free(credential_key());
    assert_eq!(
        process_create_schema(&PROGRAM, &accounts, &schema_payload()).err(),
        Some(RegistryError::InvalidCredential)
    );
    let mut short = schema_payload();
    short.pop();
    assert_eq!(
        process_create_schema(&PROGRAM, &good, &short).err(),
        Some(RegistryError::InvalidInstructionData)
    );
    let mut accounts = good.clone();
    accounts[3] = stored(schema_key(), vec![1u8; 60]);
    assert_eq!(
        process_create_schema(&PROGRAM, &accounts, &schema_payload()).err(),
        Some(RegistryError::AlreadyExists)
    );
}

#[test]
fn settling_a_draft() {
    let draft = |occupied: bool| Draft {
        seeds: vec![b"request".to_vec()],
        target: [5u8; 32],
        occupied,
        payer: PAYER,
        record: vec![3, 1, 4],
    };
    let creation = settle_creation(draft(false), &PROGRAM, Ok(([5u8; 32], 254))).unwrap();
    assert_eq!(creation.address, [5u8; 32]);
    assert_eq!(creation.bump, 254);
    assert_eq!(creation.seeds, vec![b"request".to_vec()]);
    assert_eq!(creation.owner, PROGRAM);
    assert_eq!(creation.payer, PAYER);
    assert_eq!(creation.space, 3);
    assert_eq!(creation.data, vec![3, 1, 4]);
    assert_eq!(
        settle_creation(draft(true), &PROGRAM, Ok(([5u8; 32], 254))).err(),
        Some(RegistryError::AlreadyExists)
    );
    assert_eq!(
        settle_creation(draft(false), &PROGRAM, Ok(([6u8; 32], 254))).err(),
        Some(RegistryError::InvalidRequestData)
    );
    assert_eq!(
        settle_creation(draft(true), &PROGRAM, Ok(([6u8; 32], 254))).err(),
        Some(RegistryError::InvalidRequestData)
    );
    assert_eq!(
        settle_creation(
            draft(false),
            &PROGRAM,
            Err(RegistryError::AddressDerivationExhausted)
        )
        .err(),
        Some(RegistryError::AddressDerivationExhausted)
    );
    assert_eq!(
        complete(draft(false), &PROGRAM).err(),
        Some(RegistryError::InvalidRequestData)
    );
}

#[test]
fn drafting_a_request() {
    let draft = draft_request(&PROGRAM, &request_accounts(), &payload()).unwrap();
    assert_eq!(draft.target, request_key());
    assert!(!draft.occupied);
    assert_eq!(draft.payer, PAYER);
    assert_eq!(
        draft.seeds,
        vec![
            b"request".to_vec(),
            credential_key().to_vec(),
            schema_key().to_vec(),
            RECIPIENT.to_vec()
        ]
    );
    assert_eq!(draft.record.len(), 144);
}

#[test]
fn occupied_accounts() {
    assert!(!AccountInfo::unallocated([1u8; 32], true, false).is_occupied());
    assert!(stored([1u8; 32], vec![]).is_occupied());
    let mut account = free([1u8; 32]);
    account.data = vec![0];
    assert!(account.is_occupied());
}

#[test]
fn instructions_are_named_by_their_first_byte() {
    let mut wire = vec![3u8];
    wire.extend(payload());
    let creation = process_instruction(&PROGRAM, &request_accounts(), &wire).unwrap();
    assert_eq!(creation.address, request_key());
    wire[0] = 2;
    assert_eq!(
        process_instruction(&PROGRAM, &request_accounts(), &wire).err(),
        Some(RegistryError::Unauthorized)
    );
    let creation = process_instruction(&PROGRAM, &attestation_accounts(), &wire).unwrap();
    assert_eq!(creation.address, attestation_key());
    assert_eq!(
        process_instruction(&PROGRAM, &request_accounts(), &[]).err(),
        Some(RegistryError::InvalidInstructionData)
    );
    assert_eq!(
        process_instruction(&PROGRAM, &request_accounts(), &[4]).err(),
        Some(RegistryError::InvalidInstructionData)
    );
    assert_eq!(
        process_instruction(&PROGRAM, &request_accounts(), &[3]).err(),
        Some(RegistryError::InvalidInstructionData)
    );
    assert_eq!(Instruction::CreateCredential.code_byte(), 0);
    assert_eq!(Instruction::CreateSchema.code_byte(), 1);
    assert_eq!(Instruction::CreateAttestation.code_byte(), 2);
    assert_eq!(Instruction::CreateRequest.code_byte(), 3);
    assert_eq!(Instruction::from_code(1), Some(Instruction::CreateSchema));
    assert_eq!(Instruction::from_code(4), None);
    let direct =
        dispatch(Instruction::CreateRequest, &PROGRAM, &request_accounts(), &payload()).unwrap();
    assert_eq!(direct.address, request_key());
}
