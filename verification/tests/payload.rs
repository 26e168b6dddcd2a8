use attestation_registry::error::RegistryError;
use attestation_registry::instruction::{encode_payload, CreateRequestArgs};

#[test]
fn payload_reads_back() {
    let nonce = [7u8; 32];
    let bytes = encode_payload(&nonce, &[1, 2, 3], 10_000_000_000);
    assert_eq!(bytes.len(), 32 + 4 + 3 + 8);
    assert_eq!(&bytes[32..36], &[3, 0, 0, 0]);
    let args = CreateRequestArgs::try_from_bytes(&bytes).unwrap();
    assert_eq!(args.nonce().unwrap(), &nonce);
    assert_eq!(args.data().unwrap(), &[1, 2, 3]);
    assert_eq!(args.expiry().unwrap(), 10_000_000_000);
    assert_eq!(args._data_len(), 3);
}

#[test]
fn payload_shorter_than_header_is_rejected() {
    let bytes = [0u8; 35];
    assert!(matches!(
        CreateRequestArgs::try_from_bytes(&bytes),
        Err(RegistryError::InvalidInstructionData)
    ));
    assert!(matches!(
        CreateRequestArgs::try_from_bytes(&[]),
        Err(RegistryError::InvalidInstructionData)
    ));
}

#[test]
fn payload_shorter_than_it_announces_is_rejected() {
    let nonce = [7u8; 32];
    let whole = encode_payload(&nonce, &[1, 2, 3], 5);
    for len in 36..whole.len() {
        assert!(matches!(
            CreateRequestArgs::try_from_bytes(&whole[..len]),
            Err(RegistryError::InvalidInstructionData)
        ));
    }
    assert!(CreateRequestArgs::try_from_bytes(&whole).is_ok());
}

#[test]
fn payload_with_no_data() {
    let nonce = [7u8; 32];
    let bytes = encode_payload(&nonce, &[], i64::MIN);
    assert_eq!(bytes.len(), 44);
    let args = CreateRequestArgs::try_from_bytes(&bytes).unwrap();
    assert_eq!(args._data_len(), 0);
    assert_eq!(args.data().unwrap(), &[] as &[u8]);
    assert_eq!(args.expiry().unwrap(), i64::MIN);
    assert!(matches!(
        CreateRequestArgs::try_from_bytes(&bytes[..43]),
        Err(RegistryError::InvalidInstructionData)
    ));
}

#[test]
fn payload_that_announces_the_largest_length_is_rejected() {
    let mut bytes = vec![0u8; 36 + 64];
    bytes[32..36].copy_from_slice(&u32::MAX.to_le_bytes());
    assert!(matches!(
        CreateRequestArgs::try_from_bytes(&bytes),
        Err(RegistryError::InvalidInstructionData)
    ));
    bytes[32..36].copy_from_slice(&57u32.to_le_bytes());
    assert!(matches!(
        CreateRequestArgs::try_from_bytes(&bytes),
        Err(RegistryError::InvalidInstructionData)
    ));
    bytes[32..36].copy_from_slice(&56u32.to_le_bytes());
    assert!(CreateRequestArgs::try_from_bytes(&bytes).is_ok());
}

#[test]
fn payload_may_be_followed_by_more() {
    let nonce = [1u8; 32];
    let mut bytes = encode_payload(&nonce, &[5, 6], -9);
    bytes.extend_from_slice(&[0xee; 3]);
    let args = CreateRequestArgs::try_from_bytes(&bytes).unwrap();
    assert_eq!(args.data().unwrap(), &[5, 6]);
    assert_eq!(args.expiry().unwrap(), -9);
}
