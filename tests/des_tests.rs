use luna_rs::des::{encrypt_document, DESError};

#[test]
fn test_encrypt_document_invalid_length() {
    let mut data = vec![0u8; 7];
    let result = encrypt_document(&mut data);
    assert!(result.is_err());
    assert!(matches!(result.unwrap_err(), DESError::InvalidLength(7)));
}

#[test]
fn test_encrypt_document_empty() {
    let mut data = vec![];
    let result = encrypt_document(&mut data);
    assert!(result.is_ok());
}

#[test]
fn test_encrypt_document_single_block() {
    let mut data = vec![0u8; 8];
    let original = data.clone();
    let result = encrypt_document(&mut data);
    assert!(result.is_ok());
    assert_ne!(data, original);
}

#[test]
fn test_encrypt_document_multiple_blocks() {
    let mut data = vec![0u8; 24];
    let original = data.clone();
    let result = encrypt_document(&mut data);
    assert!(result.is_ok());
    assert_ne!(data, original);
}

#[test]
fn test_encrypt_document_known_vector() {
    let mut data1 = vec![0x00, 0x11, 0x22, 0x33, 0x44, 0x55, 0x66, 0x77];
    let mut data2 = data1.clone();
    encrypt_document(&mut data1).unwrap();
    encrypt_document(&mut data2).unwrap();
    assert_eq!(data1, data2);
}

#[test]
fn test_counter_wrap() {
    let mut data = vec![0u8; 1024 * 8 + 8];
    let result = encrypt_document(&mut data);
    assert!(result.is_ok());
}

#[test]
fn test_encrypt_document_different_inputs() {
    let mut data1 = vec![0x00; 8];
    let mut data2 = vec![0xFF; 8];
    encrypt_document(&mut data1).unwrap();
    encrypt_document(&mut data2).unwrap();
    assert_ne!(data1, data2);
}

#[test]
fn invalid_length_leaves_data_untouched() {
    let mut data = vec![1u8, 2, 3, 4, 5, 6, 7, 8, 9];
    assert!(matches!(encrypt_document(&mut data), Err(DESError::InvalidLength(9))));
    assert_eq!(data, vec![1u8, 2, 3, 4, 5, 6, 7, 8, 9]);
}

#[test]
fn empty_buffer_stays_empty() {
    let mut data: Vec<u8> = Vec::new();
    encrypt_document(&mut data).unwrap();
    assert!(data.is_empty());
}

#[test]
fn mask_repeats_after_1024_blocks() {
    let mut data = vec![0u8; 1025 * 8];
    encrypt_document(&mut data).unwrap();
    assert_eq!(data[0..8], data[1024 * 8..1025 * 8]);
    assert_ne!(data[0..8], data[8..16]);
}

#[test]
fn protection_is_xor_with_a_mask() {
    let mut zeros = vec![0u8; 8];
    let mut ones = vec![0xFFu8; 8];
    encrypt_document(&mut zeros).unwrap();
    encrypt_document(&mut ones).unwrap();
    for i in 0..8 {
        assert_eq!(zeros[i] ^ 0xFF, ones[i]);
    }
}

#[test]
fn mask_is_not_the_counter_block() {
    let mut data = vec![0u8; 8];
    encrypt_document(&mut data).unwrap();
    assert_ne!(data, vec![0u8, 0, 0, 0, 0x07, 0x13, 0xE2, 0x6F]);
}
