use attestation_registry::address::{
    get_attestation_pda, get_credential_pda, get_request_pda, get_schema_pda,
};
use attestation_registry::claim::{Attestation, Request};
use attestation_registry::cli::{
    Args, Commands, CreateAttestationInput, CreateCredentialArgs, CreateSchemaArgs, QueryArgs,
    QueryType, SchemaType,
};
use attestation_registry::client::{
    attestation_instruction, credential_instruction, process_create_attestation,
    process_create_credential, process_create_request, process_create_schema, process_query,
    request_instruction, schema_instruction, Prepared, ATTESTATION_LIFETIME,
};
use attestation_registry::error::RegistryError;
use attestation_registry::fields::decode_field_names;
use attestation_registry::instruction::CreateRequestArgs;
use attestation_registry::ledger::{AccountMeta, Cell, Ledger};
use attestation_registry::processor::{process_instruction, Instruction};
use attestation_registry::schema::Schema;

const PROGRAM: [u8; 32] = [9u8; 32];
const SYSTEM: [u8; 32] = [0u8; 32];
const A: [u8; 32] = [1u8; 32];
const P: [u8; 32] = [2u8; 32];
const NOW: i64 = 1_700_000_000;
const RECIPIENT: &str = "TokenkegQfeZyiNwAJbNbGKPFXCWuBvf9Ss623VQ5DA";

fn args() -> Args {
    Args {
        command: Commands::Query(QueryArgs {
            credential_name: "RNS_PROOF".to_string(),
            schema_name: "jurisdiction".to_string(),
            query_type: QueryType::Attestation,
        }),
        rpc_url: "http://localhost:8899".to_string(),
        program_id: PROGRAM,
        priority_fee: None,
    }
}

fn keys(prepared: &Prepared) -> Vec<([u8; 32], bool, bool)> {
    prepared.accounts.iter().map(|a| (a.key, a.is_signer, a.is_writable)).collect()
}

fn send(ledger: &mut Ledger, prepared: &Prepared) -> Result<[u8; 32], RegistryError> {
    ledger.execute(&PROGRAM, prepared.instruction, &prepared.accounts, &prepared.data)
}

fn credential_args() -> CreateCredentialArgs {
    CreateCredentialArgs { credential_name: "RNS_PROOF".to_string() }
}

fn schema_args() -> CreateSchemaArgs {
    CreateSchemaArgs {
        credential_name: "RNS_PROOF".to_string(),
        schema_type: SchemaType::Jurisdiction,
        schema_name: "jurisdiction".to_string(),
        description: "schema_description".to_string(),
    }
}

fn claim_input() -> CreateAttestationInput {
    CreateAttestationInput {
        credential_name: "RNS_PROOF".to_string(),
        schema_name: "jurisdiction".to_string(),
        recipient: RECIPIENT.to_string(),
        attestation_data: SchemaType::Jurisdiction.sample_data(),
    }
}

#[test]
fn credential_command() {
    let prepared = process_create_credential(&args(), &A, &credential_args()).unwrap();
    let credential = get_credential_pda(&PROGRAM, &A, "RNS_PROOF").unwrap().0;
    assert_eq!(prepared.instruction, Instruction::CreateCredential);
    assert_eq!(
        keys(&prepared),
        vec![
            (A, true, true),
            (credential, false, true),
            (A, true, false),
            (SYSTEM, false, false)
        ]
    );
    assert_eq!(prepared.data, vec![9, 0, 0, 0, b'R', b'N', b'S', b'_', b'P', b'R', b'O', b'O', b'F']);
}

#[test]
fn credential_command_refuses_a_long_name() {
    let long = CreateCredentialArgs { credential_name: "x".repeat(33) };
    assert_eq!(
        process_create_credential(&args(), &A, &long).err(),
        Some(RegistryError::InvalidInstructionData)
    );
}

#[test]
fn schema_command() {
    let prepared = process_create_schema(&args(), &A, &schema_args()).unwrap();
    let credential = get_credential_pda(&PROGRAM, &A, "RNS_PROOF").unwrap().0;
    let schema = get_schema_pda(&PROGRAM, &credential, "jurisdiction").unwrap().0;
    assert_eq!(prepared.instruction, Instruction::CreateSchema);
    assert_eq!(
        keys(&prepared),
        vec![
            (A, true, true),
            (A, true, false),
            (credential, false, false),
            (schema, false, true),
            (SYSTEM, false, false)
        ]
    );
    let mut expected = vec![12, 0, 0, 0];
    expected.extend_from_slice(b"jurisdiction");
    expected.extend_from_slice(&[18, 0, 0, 0]);
    expected.extend_from_slice(b"schema_description");
    expected.extend_from_slice(&[1, 0, 0, 0, 12]);
    expected.extend_from_slice(&[16, 0, 0, 0, 12, 0, 0, 0]);
    expected.extend_from_slice(b"jurisdiction");
    assert_eq!(prepared.data, expected);
}

#[test]
fn attestation_command() {
    let prepared = process_create_attestation(&args(), &A, NOW, &claim_input()).unwrap();
    let credential = get_credential_pda(&PROGRAM, &A, "RNS_PROOF").unwrap().0;
    let schema = get_schema_pda(&PROGRAM, &credential, "jurisdiction").unwrap().0;
    let payload = CreateRequestArgs::try_from_bytes(&prepared.data).unwrap();
    let recipient = *payload.nonce().unwrap();
    assert_eq!(&recipient[..4], &[6, 221, 246, 225]);
    let attestation = get_attestation_pda(&PROGRAM, &credential, &schema, &A, &recipient).unwrap().0;
    assert_eq!(prepared.instruction, Instruction::CreateAttestation);
    assert_eq!(
        keys(&prepared),
        vec![
            (A, true, true),
            (A, true, false),
            (credential, false, false),
            (schema, false, false),
            (attestation, false, true),
            (SYSTEM, false, false)
        ]
    );
    assert_eq!(payload.data().unwrap(), &[1, 0, 0, 0, b'1']);
    assert_eq!(payload.expiry().unwrap(), NOW + 36000);
    assert_eq!(ATTESTATION_LIFETIME, 36000);
}

#[test]
fn attestation_command_faults() {
    let mut input = claim_input();
    input.recipient = "nobody".to_string();
    assert_eq!(
        process_create_attestation(&args(), &A, NOW, &input).err(),
        Some(RegistryError::InvalidInstructionData)
    );
    assert_eq!(
        process_create_attestation(&args(), &A, i64::MAX - 35_999, &claim_input()).err(),
        Some(RegistryError::InvalidInstructionData)
    );
    assert!(process_create_attestation(&args(), &A, i64::MAX - 36_000, &claim_input()).is_ok());
}

#[test]
fn request_command() {
    let prepared = process_create_request(&args(), &P, &A, 77, &claim_input()).unwrap();
    let credential = get_credential_pda(&PROGRAM, &A, "RNS_PROOF").unwrap().0;
    let schema = get_schema_pda(&PROGRAM, &credential, "jurisdiction").unwrap().0;
    let request = get_request_pda(&PROGRAM, &credential, &schema, &P).unwrap().0;
    assert_eq!(prepared.instruction, Instruction::CreateRequest);
    assert_eq!(
        keys(&prepared),
        vec![
            (P, true, true),
            (A, false, false),
            (credential, false, false),
            (schema, false, false),
            (request, false, true),
            (SYSTEM, false, false)
        ]
    );
    let payload = CreateRequestArgs::try_from_bytes(&prepared.data).unwrap();
    assert_eq!(payload.nonce().unwrap(), &P);
    assert_eq!(payload.expiry().unwrap(), 77);
}

#[test]
fn instructions_by_hand() {
    let prepared = credential_instruction(&P, &A, &[3u8; 32], b"n");
    assert_eq!(prepared.data, vec![1, 0, 0, 0, b'n']);
    assert_eq!(keys(&prepared)[0], (P, true, true));
    assert_eq!(keys(&prepared)[1], ([3u8; 32], false, true));
    let prepared = schema_instruction(&P, &A, &[3u8; 32], &[4u8; 32], b"n", b"", &[10], &[]);
    assert_eq!(prepared.data, vec![1, 0, 0, 0, b'n', 0, 0, 0, 0, 1, 0, 0, 0, 10, 0, 0, 0, 0]);
    assert_eq!(keys(&prepared)[3], ([4u8; 32], false, true));
    let nonce = [6u8; 32];
    let prepared =
        attestation_instruction(&P, &A, &[3u8; 32], &[4u8; 32], &[5u8; 32], &nonce, &[1], -1);
    assert_eq!(prepared.data.len(), 32 + 4 + 1 + 8);
    assert_eq!(keys(&prepared)[1], (A, true, false));
    assert_eq!(keys(&prepared)[4], ([5u8; 32], false, true));
    let prepared =
        request_instruction(&P, &A, &[3u8; 32], &[4u8; 32], &[5u8; 32], &nonce, &[1], -1);
    assert_eq!(keys(&prepared)[1], (A, false, false));
    assert_eq!(&prepared.data[..32], &nonce);
    assert_eq!(&prepared.data[37..], &(-1i64).to_le_bytes());
}

#[test]
fn commands_run_against_a_ledger() {
    let mut ledger = Ledger::new();
    let credential = send(
        &mut ledger,
        &process_create_credential(&args(), &A, &credential_args()).unwrap(),
    )
    .unwrap();
    let schema =
        send(&mut ledger, &process_create_schema(&args(), &A, &schema_args()).unwrap()).unwrap();
    let attestation = send(
        &mut ledger,
        &process_create_attestation(&args(), &A, NOW, &claim_input()).unwrap(),
    )
    .unwrap();
    let mut request_command = process_create_request(&args(), &P, &A, 5, &claim_input()).unwrap();
    let request = send(&mut ledger, &request_command).unwrap();
    request_command.accounts[0] = AccountMeta { key: A, is_signer: true, is_writable: true };
    assert_eq!(send(&mut ledger, &request_command), Err(RegistryError::AlreadyExists));
    assert_eq!(ledger.len(), 4);

    let stored = Schema::try_from_bytes(ledger.data(&schema).unwrap()).unwrap();
    assert_eq!(stored.credential, credential);
    assert_eq!(
        decode_field_names(&stored.layout, &stored.field_names).unwrap(),
        vec!["jurisdiction".to_string()]
    );
    let stored = Attestation::try_from_bytes(ledger.data(&attestation).unwrap()).unwrap();
    assert_eq!(stored.signer, A);
    assert_eq!(stored.expiry, NOW + 36000);
    let stored = Request::try_from_bytes(ledger.data(&request).unwrap()).unwrap();
    assert_eq!(stored.signer, P);
    assert_eq!(stored.nonce, P);

    let cells: Vec<Cell> = [credential, schema, attestation, request]
        .iter()
        .map(|address| Cell {
            address: *address,
            owner: PROGRAM,
            data: ledger.data(address).unwrap().clone(),
        })
        .collect();
    let query = |query_type: QueryType| QueryArgs {
        credential_name: "RNS_PROOF".to_string(),
        schema_name: "jurisdiction".to_string(),
        query_type,
    };
    assert_eq!(
        process_query(&args(), &A, &query(QueryType::Credential), &cells),
        Ok(vec![credential])
    );
    assert_eq!(process_query(&args(), &A, &query(QueryType::Schema), &cells), Ok(vec![schema]));
    assert_eq!(
        process_query(&args(), &A, &query(QueryType::Attestation), &cells),
        Ok(vec![attestation])
    );
    assert_eq!(process_query(&args(), &P, &query(QueryType::Schema), &cells), Ok(vec![]));
}

#[test]
fn a_prepared_instruction_on_the_wire() {
    let prepared = credential_instruction(&P, &A, &[3u8; 32], b"n");
    assert_eq!(prepared.wire_data(), vec![0, 1, 0, 0, 0, b'n']);
    let prepared = process_create_credential(&args(), &A, &credential_args()).unwrap();
    let ledger = Ledger::new();
    let accounts: Vec<_> = prepared
        .accounts
        .iter()
        .map(|a| ledger.account(&a.key, a.is_signer, a.is_writable))
        .collect();
    let creation = process_instruction(&PROGRAM, &accounts, &prepared.wire_data()).unwrap();
    assert_eq!(creation.address, prepared.accounts[1].key);
    assert_eq!(creation.payer, A);
}
