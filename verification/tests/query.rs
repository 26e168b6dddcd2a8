use attestation_registry::claim::{Attestation, Request};
use attestation_registry::credential::Credential;
use attestation_registry::ledger::Cell;
use attestation_registry::query::{
    attestation_filters, credential_filters, get_all_attestation_addresses,
    get_all_credential_addresses, get_all_schema_addresses, passes, schema_filters, select,
    ByteFilter,
};
use attestation_registry::schema::Schema;

const PROGRAM: [u8; 32] = [9u8; 32];
const C1: [u8; 32] = [0x11u8; 32];
const C2: [u8; 32] = [0x12u8; 32];
const S1: [u8; 32] = [0x21u8; 32];
const S2: [u8; 32] = [0x22u8; 32];

fn credential(authority: [u8; 32]) -> Vec<u8> {
    Credential { authority, name: b"n".to_vec(), authorized_signers: vec![authority] }.to_bytes()
}

fn schema(credential: [u8; 32]) -> Vec<u8> {
    Schema {
        credential,
        version: 1,
        is_paused: false,
        name: b"s".to_vec(),
        description: vec![],
        layout: vec![10],
        field_names: vec![],
    }
    .to_bytes()
}

fn attestation(credential: [u8; 32], schema: [u8; 32], nonce: u8) -> Vec<u8> {
    Attestation {
        nonce: [nonce; 32],
        credential,
        schema,
        data: vec![1],
        signer: [3u8; 32],
        expiry: 5,
    }
    .to_bytes()
}

fn request(credential: [u8; 32], schema: [u8; 32]) -> Vec<u8> {
    Request {
        credential,
        schema,
        signer: [3u8; 32],
        nonce: [4u8; 32],
        data: vec![1],
        expiry: 5,
    }
    .to_bytes()
}

fn cell(address: u8, owner: [u8; 32], data: Vec<u8>) -> Cell {
    Cell { address: [address; 32], owner, data }
}

fn cells() -> Vec<Cell> {
    vec![
        cell(1, PROGRAM, credential([0xa1u8; 32])),
        cell(2, PROGRAM, schema(C1)),
        cell(3, PROGRAM, schema(C2)),
        cell(4, PROGRAM, attestation(C1, S1, 1)),
        cell(5, PROGRAM, attestation(C1, S2, 2)),
        cell(6, PROGRAM, attestation(C2, S1, 3)),
        cell(7, PROGRAM, attestation(C1, S1, 4)),
        cell(8, [8u8; 32], attestation(C1, S1, 5)),
        cell(9, PROGRAM, request(C1, S1)),
        cell(10, PROGRAM, credential([0xa2u8; 32])),
        cell(11, PROGRAM, request(C1, C1)),
    ]
}

#[test]
fn the_filters_are_the_documented_offsets() {
    let filters = credential_filters();
    assert_eq!(filters.len(), 1);
    assert_eq!((filters[0].offset, filters[0].bytes.clone()), (0, vec![0u8]));
    let filters = schema_filters(&C1);
    assert_eq!(filters.len(), 2);
    assert_eq!((filters[0].offset, filters[0].bytes.clone()), (0, vec![1u8]));
    assert_eq!((filters[1].offset, filters[1].bytes.clone()), (1, C1.to_vec()));
    let filters = attestation_filters(&C1, &S1);
    assert_eq!(filters.len(), 3);
    assert_eq!((filters[0].offset, filters[0].bytes.clone()), (0, vec![2u8]));
    assert_eq!((filters[1].offset, filters[1].bytes.clone()), (33, C1.to_vec()));
    assert_eq!((filters[2].offset, filters[2].bytes.clone()), (65, S1.to_vec()));
}

#[test]
fn a_filter_compares_bytes_at_its_offset() {
    let filter = ByteFilter { offset: 2, bytes: vec![7, 8] };
    assert!(filter.is_match(&[0, 0, 7, 8]));
    assert!(filter.is_match(&[0, 0, 7, 8, 9]));
    assert!(!filter.is_match(&[0, 0, 7, 9]));
    assert!(!filter.is_match(&[0, 0, 7]));
    assert!(!filter.is_match(&[]));
    let far = ByteFilter { offset: usize::MAX, bytes: vec![1] };
    assert!(!far.is_match(&[1, 1, 1]));
    let empty = ByteFilter { offset: 3, bytes: vec![] };
    assert!(empty.is_match(&[1, 2, 3]));
    assert!(!empty.is_match(&[1, 2]));
    assert!(passes(&[], &[1]));
    assert!(passes(&[filter.clone(), empty.clone()], &[0, 0, 7, 8]));
    assert!(!passes(&[filter, far], &[0, 0, 7, 8]));
}

#[test]
fn credentials_are_found_by_discriminator() {
    assert_eq!(get_all_credential_addresses(&PROGRAM, &cells()), vec![[1u8; 32], [10u8; 32]]);
    assert_eq!(get_all_credential_addresses(&[8u8; 32], &cells()), Vec::<[u8; 32]>::new());
}

#[test]
fn schemas_are_found_by_credential() {
    assert_eq!(get_all_schema_addresses(&PROGRAM, &cells(), &C1), vec![[2u8; 32]]);
    assert_eq!(get_all_schema_addresses(&PROGRAM, &cells(), &C2), vec![[3u8; 32]]);
    assert_eq!(get_all_schema_addresses(&PROGRAM, &cells(), &S1), Vec::<[u8; 32]>::new());
}

#[test]
fn attestations_are_found_by_credential_and_schema() {
    assert_eq!(
        get_all_attestation_addresses(&PROGRAM, &cells(), &C1, &S1),
        vec![[4u8; 32], [7u8; 32]]
    );
    assert_eq!(get_all_attestation_addresses(&PROGRAM, &cells(), &C1, &S2), vec![[5u8; 32]]);
    assert_eq!(get_all_attestation_addresses(&PROGRAM, &cells(), &C2, &S1), vec![[6u8; 32]]);
    assert_eq!(
        get_all_attestation_addresses(&PROGRAM, &cells(), &C2, &S2),
        Vec::<[u8; 32]>::new()
    );
    assert_eq!(get_all_attestation_addresses(&[8u8; 32], &cells(), &C1, &S1), vec![[8u8; 32]]);
}

#[test]
fn requests_are_no_attestations() {
    let found = get_all_attestation_addresses(&PROGRAM, &cells(), &C1, &C1);
    assert_eq!(found, Vec::<[u8; 32]>::new());
}

#[test]
fn selection_keeps_the_order_of_the_cells() {
    let all = select(&cells(), &PROGRAM, &[]);
    assert_eq!(all.len(), 10);
    assert_eq!(all[0], [1u8; 32]);
    assert_eq!(all[9], [11u8; 32]);
    assert_eq!(select(&[], &PROGRAM, &[]), Vec::<[u8; 32]>::new());
}
