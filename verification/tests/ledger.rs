use attestation_registry::address::{
    get_attestation_pda, get_credential_pda, get_request_pda, get_schema_pda,
};
use attestation_registry::claim::{Attestation, Request};
use attestation_registry::credential::Credential;
use attestation_registry::error::RegistryError;
use attestation_registry::fields::{decode_field_names, encode_field_names, FieldType};
use attestation_registry::instruction::encode_payload;
use attestation_registry::ledger::{AccountMeta, Ledger};
use attestation_registry::processor::Instruction;
use attestation_registry::query::{get_all_credential_addresses, get_all_schema_addresses};
use attestation_registry::schema::Schema;

const PROGRAM: [u8; 32] = [9u8; 32];
const SYSTEM: [u8; 32] = [0u8; 32];
const A: [u8; 32] = [1u8; 32];
const B: [u8; 32] = [2u8; 32];
const R: [u8; 32] = [7u8; 32];
const T: i64 = 1_900_000_000;

fn signing(key: [u8; 32]) -> AccountMeta {
    AccountMeta { key, is_signer: true, is_writable: true }
}

fn plain(key: [u8; 32]) -> AccountMeta {
    AccountMeta { key, is_signer: false, is_writable: false }
}

fn prefixed(bytes: &[u8]) -> Vec<u8> {
    let mut out = (bytes.len() as u32).to_le_bytes().to_vec();
    out.extend_from_slice(bytes);
    out
}

struct Fixture {
    ledger: Ledger,
    credential: [u8; 32],
    schema: [u8; 32],
}

fn setup(credential_name: &str, schema_name: &str, layout: &[u8], names: &[&str]) -> Fixture {
    let mut ledger = Ledger::new();
    let credential = get_credential_pda(&PROGRAM, &A, credential_name).unwrap().0;
    let created = ledger.execute(
        &PROGRAM,
        Instruction::CreateCredential,
        &[signing(A), plain(credential), signing(A), plain(SYSTEM)],
        &prefixed(credential_name.as_bytes()),
    );
    assert_eq!(created, Ok(credential));
    let schema = get_schema_pda(&PROGRAM, &credential, schema_name).unwrap().0;
    let field_names =
        encode_field_names(&names.iter().map(|name| name.to_string()).collect()).unwrap();
    let mut data = prefixed(schema_name.as_bytes());
    data.extend(prefixed(b"a description"));
    data.extend(prefixed(layout));
    data.extend(prefixed(&field_names));
    let created = ledger.execute(
        &PROGRAM,
        Instruction::CreateSchema,
        &[signing(A), signing(A), plain(credential), plain(schema), plain(SYSTEM)],
        &data,
    );
    assert_eq!(created, Ok(schema));
    Fixture { ledger, credential, schema }
}

#[test]
fn credential_schema_attestation_scenario() {
    let Fixture { mut ledger, credential, schema } =
        setup("issuer-1", "jurisdiction", &[12], &["jurisdiction"]);
    let stored = Credential::try_from_bytes(ledger.data(&credential).unwrap()).unwrap();
    assert_eq!(stored.authority, A);
    assert_eq!(stored.name, b"issuer-1".to_vec());
    assert_eq!(stored.authorized_signers, vec![A]);

    let claim = prefixed(b"US");
    let attestation = get_attestation_pda(&PROGRAM, &credential, &schema, &A, &R).unwrap().0;
    let created = ledger.execute(
        &PROGRAM,
        Instruction::CreateAttestation,
        &[
            signing(A),
            signing(A),
            plain(credential),
            plain(schema),
            plain(attestation),
            plain(SYSTEM),
        ],
        &encode_payload(&R, &claim, T),
    );
    assert_eq!(created, Ok(attestation));
    assert_eq!(ledger.len(), 3);

    let decoded = Attestation::try_from_bytes(ledger.data(&attestation).unwrap()).unwrap();
    assert_eq!(decoded.schema, schema);
    assert_eq!(decoded.credential, credential);
    assert_eq!(decoded.signer, A);
    assert_eq!(decoded.nonce, R);
    assert_eq!(decoded.expiry, T);

    let kept = Schema::try_from_bytes(ledger.data(&schema).unwrap()).unwrap();
    assert_eq!(kept.layout, vec![12]);
    let names = decode_field_names(&kept.layout, &kept.field_names).unwrap();
    assert_eq!(names, vec!["jurisdiction".to_string()]);
    assert_eq!(decoded.data, prefixed(b"US"));
    assert_eq!(FieldType::from_tag(kept.layout[0]), Some(FieldType::Text));
    assert_eq!(borsh::from_slice::<String>(&decoded.data).unwrap(), "US");
}

#[test]
fn second_request_with_another_signer_fails() {
    let Fixture { mut ledger, credential, schema } =
        setup("issuer-1", "jurisdiction", &[12], &["jurisdiction"]);
    let request = get_request_pda(&PROGRAM, &credential, &schema, &R).unwrap().0;
    let metas = |payer: [u8; 32]| {
        vec![
            signing(payer),
            plain(A),
            plain(credential),
            plain(schema),
            plain(request),
            plain(SYSTEM),
        ]
    };
    let first = ledger.execute(
        &PROGRAM,
        Instruction::CreateRequest,
        &metas(A),
        &encode_payload(&R, b"one", T),
    );
    assert_eq!(first, Ok(request));
    let before = ledger.data(&request).unwrap().clone();

    let second = ledger.execute(
        &PROGRAM,
        Instruction::CreateRequest,
        &metas(B),
        &encode_payload(&R, b"two", T + 1),
    );
    assert_eq!(second, Err(RegistryError::AlreadyExists));
    assert_eq!(ledger.len(), 3);
    assert_eq!(ledger.data(&request).unwrap(), &before);
    let kept = Request::try_from_bytes(ledger.data(&request).unwrap()).unwrap();
    assert_eq!(kept.signer, A);
    assert_eq!(kept.data, b"one".to_vec());
    assert_eq!(kept.expiry, T);
}

#[test]
fn the_same_request_is_created_once() {
    let Fixture { mut ledger, credential, schema } =
        setup("issuer-1", "jurisdiction", &[12], &["jurisdiction"]);
    let request = get_request_pda(&PROGRAM, &credential, &schema, &R).unwrap().0;
    let metas = vec![
        signing(A),
        plain(A),
        plain(credential),
        plain(schema),
        plain(request),
        plain(SYSTEM),
    ];
    let data = encode_payload(&R, b"claim", T);
    let outcomes: Vec<_> = (0..2)
        .map(|_| ledger.execute(&PROGRAM, Instruction::CreateRequest, &metas, &data))
        .collect();
    assert_eq!(outcomes, vec![Ok(request), Err(RegistryError::AlreadyExists)]);

    let other = get_request_pda(&PROGRAM, &credential, &schema, &B).unwrap().0;
    let mut metas = metas;
    metas[4] = plain(other);
    assert_eq!(
        ledger.execute(
            &PROGRAM,
            Instruction::CreateRequest,
            &metas,
            &encode_payload(&B, b"claim", T)
        ),
        Ok(other)
    );
}

#[test]
fn every_record_is_created_once() {
    let Fixture { mut ledger, credential, schema } =
        setup("issuer-1", "jurisdiction", &[12], &["jurisdiction"]);
    assert_eq!(
        ledger.execute(
            &PROGRAM,
            Instruction::CreateCredential,
            &[signing(A), plain(credential), signing(A), plain(SYSTEM)],
            &prefixed(b"issuer-1"),
        ),
        Err(RegistryError::AlreadyExists)
    );
    let mut data = prefixed(b"jurisdiction");
    data.extend(prefixed(b""));
    data.extend(prefixed(&[12]));
    data.extend(prefixed(b""));
    assert_eq!(
        ledger.execute(
            &PROGRAM,
            Instruction::CreateSchema,
            &[signing(A), signing(A), plain(credential), plain(schema), plain(SYSTEM)],
            &data,
        ),
        Err(RegistryError::AlreadyExists)
    );
    assert_eq!(ledger.len(), 2);
}

#[test]
fn attestation_against_a_schema_of_another_credential_fails() {
    let Fixture { mut ledger, credential: _, schema } =
        setup("issuer-1", "jurisdiction", &[12], &["jurisdiction"]);
    let other = get_credential_pda(&PROGRAM, &A, "issuer-2").unwrap().0;
    assert_eq!(
        ledger.execute(
            &PROGRAM,
            Instruction::CreateCredential,
            &[signing(A), plain(other), signing(A), plain(SYSTEM)],
            &prefixed(b"issuer-2"),
        ),
        Ok(other)
    );
    let attestation = get_attestation_pda(&PROGRAM, &other, &schema, &A, &R).unwrap().0;
    let outcome = ledger.execute(
        &PROGRAM,
        Instruction::CreateAttestation,
        &[signing(A), signing(A), plain(other), plain(schema), plain(attestation), plain(SYSTEM)],
        &encode_payload(&R, b"claim", T),
    );
    assert_eq!(outcome, Err(RegistryError::InvalidCredential));
    assert_eq!(ledger.len(), 3);
    assert!(ledger.data(&attestation).is_none());
}

#[test]
fn a_failed_instruction_changes_nothing() {
    let Fixture { mut ledger, credential, schema } =
        setup("issuer-1", "jurisdiction", &[12], &["jurisdiction"]);
    let request = get_request_pda(&PROGRAM, &credential, &schema, &R).unwrap().0;
    let metas = vec![
        plain(A),
        plain(A),
        plain(credential),
        plain(schema),
        plain(request),
        plain(SYSTEM),
    ];
    assert_eq!(
        ledger.execute(
            &PROGRAM,
            Instruction::CreateRequest,
            &metas,
            &encode_payload(&R, b"claim", T)
        ),
        Err(RegistryError::Unauthorized)
    );
    assert_eq!(
        ledger.execute(&PROGRAM, Instruction::CreateRequest, &metas[..5], &[]),
        Err(RegistryError::InvalidAccountsError)
    );
    assert_eq!(ledger.len(), 2);
    assert!(ledger.data(&request).is_none());
}

#[test]
fn cells_are_listed_in_the_order_of_creation() {
    let Fixture { ledger, credential, schema } =
        setup("issuer-1", "jurisdiction", &[12], &["jurisdiction"]);
    let cells = ledger.cells();
    assert_eq!(cells.len(), 2);
    assert_eq!(cells[0].address, credential);
    assert_eq!(cells[1].address, schema);
    assert_eq!(cells[0].owner, PROGRAM);
    assert_eq!(&cells[1].data, ledger.data(&schema).unwrap());
    assert_eq!(get_all_credential_addresses(&PROGRAM, cells), vec![credential]);
    assert_eq!(get_all_schema_addresses(&PROGRAM, cells, &credential), vec![schema]);
}

#[test]
fn an_empty_ledger_holds_nothing() {
    let ledger = Ledger::new();
    assert_eq!(ledger.len(), 0);
    assert!(ledger.data(&A).is_none());
    let account = ledger.account(&A, true, false);
    assert_eq!(account.key, A);
    assert_eq!(account.owner, SYSTEM);
    assert!(account.is_signer);
    assert!(!account.is_writable);
    assert!(account.data.is_empty());
    assert!(!account.is_occupied());
}

#[test]
fn create_request_success() {
    let Fixture { mut ledger, credential, schema } =
        setup("test", "test_data", &[12, 0], &["name", "location"]);
    let recipient = [0x5au8; 32];
    let expiry: i64 = 1000_000_0000;
    let mut serialized_req_data = prefixed(b"attest");
    serialized_req_data.push(11);

    let request_pda = get_request_pda(&PROGRAM, &credential, &schema, &recipient).unwrap().0;
    let created = ledger.execute(
        &PROGRAM,
        Instruction::CreateRequest,
        &[
            signing(B),
            plain(A),
            plain(credential),
            plain(schema),
            plain(request_pda),
            plain(SYSTEM),
        ],
        &encode_payload(&recipient, &serialized_req_data, expiry),
    );
    assert_eq!(created, Ok(request_pda));

    let req = Request::try_from_bytes(ledger.data(&request_pda).unwrap()).unwrap();
    assert_eq!(req.credential, credential);
    assert_eq!(req.schema, schema);
    assert_eq!(req.signer, B);
    assert_eq!(req.nonce, recipient);
    assert_eq!(req.expiry, 10000000000);
    assert_eq!(req.data, serialized_req_data);
    assert_eq!(&req.data[4..10], b"attest");
    assert_eq!(req.data[10], 11);
    let stored = Schema::try_from_bytes(ledger.data(&schema).unwrap()).unwrap();
    assert_eq!(
        decode_field_names(&stored.layout, &stored.field_names).unwrap(),
        vec!["name".to_string(), "location".to_string()]
    );
}
