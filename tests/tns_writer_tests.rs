use luna_rs::tns_writer::{
    build_tns_archive, write_std_local_header, write_ti_end_of_central_dir,
    write_ti_local_header, TnsFileEntry, TI_ENCRYPTED_METHOD, TI_VERSION_DEFAULT,
};

#[test]
fn test_ti_header_magic() {
    let mut buffer: Vec<u8> = Vec::new();
    write_ti_local_header(
        &mut buffer,
        "test.xml",
        TI_ENCRYPTED_METHOD,
        0x12345678,
        100,
        100,
        &TI_VERSION_DEFAULT,
    );
    let bytes = buffer;
    assert_eq!(&bytes[0..6], b"*TIMLP");
    assert_eq!(&bytes[6..10], b"0500");
}

#[test]
fn test_std_header_magic() {
    let mut buffer: Vec<u8> = Vec::new();
    write_std_local_header(&mut buffer, "test.xml", TI_ENCRYPTED_METHOD, 0x12345678, 100, 100);
    let bytes = buffer;
    assert_eq!(&bytes[0..4], &[0x50, 0x4B, 0x03, 0x04]);
}

#[test]
fn test_ti_end_signature() {
    let mut buffer: Vec<u8> = Vec::new();
    write_ti_end_of_central_dir(&mut buffer, 2, 100, 500);
    let bytes = buffer;
    assert_eq!(&bytes[0..4], b"TIPD");
}

#[test]
fn ti_local_header_field_layout() {
    let mut b: Vec<u8> = Vec::new();
    write_ti_local_header(&mut b, "ab", 0x0D, 0x12345678, 100, 200, &TI_VERSION_DEFAULT);
    assert_eq!(
        b,
        vec![
            0x2A, 0x54, 0x49, 0x4D, 0x4C, 0x50, 0x30, 0x35, 0x30, 0x30, 20, 0, 0, 0, 0x0D, 0,
            0x00, 0x00, 0x20, 0x00, 0x78, 0x56, 0x34, 0x12, 100, 0, 0, 0, 200, 0, 0, 0, 2, 0, 0,
            0, b'a', b'b',
        ]
    );
}

#[test]
fn end_record_layout() {
    let mut b: Vec<u8> = Vec::new();
    write_ti_end_of_central_dir(&mut b, 3, 0x0102, 0x0A0B0C0D);
    assert_eq!(
        b,
        vec![
            b'T', b'I', b'P', b'D', 0, 0, 0, 0, 3, 0, 3, 0, 0x02, 0x01, 0, 0, 0x0D, 0x0C, 0x0B,
            0x0A, 0, 0,
        ]
    );
}

fn two_entries() -> Vec<TnsFileEntry> {
    vec![
        TnsFileEntry::new_ti_encrypted("Document.xml", vec![1, 2, 3]),
        TnsFileEntry::new_ti_encrypted("Problem1.xml", vec![4, 5, 6, 7]),
    ]
}

#[test]
fn archive_signatures() {
    let a = build_tns_archive(&two_entries(), false);
    assert_eq!(&a[0..6], b"*TIMLP");
    assert_eq!(&a[6..10], b"0500");
    let second = 10 + 26 + 12 + 3;
    assert_eq!(&a[second..second + 4], &[0x50, 0x4B, 0x03, 0x04]);
    let n = a.len();
    assert_eq!(&a[n - 22..n - 18], b"TIPD");
}

#[test]
fn archive_bitmap_version_tag() {
    let a = build_tns_archive(&two_entries(), true);
    assert_eq!(&a[6..10], b"0700");
}

#[test]
fn archive_central_directory_and_end_record() {
    let a = build_tns_archive(&two_entries(), false);
    let first = 10 + 26 + 12 + 3;
    let second = 4 + 26 + 12 + 4;
    let cd_start = first + second;
    assert_eq!(&a[cd_start..cd_start + 4], &[0x50, 0x4B, 0x01, 0x02]);
    let cd_record = 46 + 12;
    let second_cd = cd_start + cd_record;
    assert_eq!(&a[second_cd + 42..second_cd + 46], &(first as u32).to_le_bytes());
    let end = cd_start + 2 * cd_record;
    assert_eq!(a.len(), end + 22);
    assert_eq!(&a[end + 8..end + 10], &[2, 0]);
    assert_eq!(&a[end + 10..end + 12], &[2, 0]);
    assert_eq!(&a[end + 12..end + 16], &((2 * cd_record) as u32).to_le_bytes());
    assert_eq!(&a[end + 16..end + 20], &(cd_start as u32).to_le_bytes());
}

#[test]
fn protected_entry_checksum_is_of_stored_bytes() {
    let entries = vec![TnsFileEntry::new_ti_encrypted("x", b"123456789".to_vec())];
    let a = build_tns_archive(&entries, false);
    assert_eq!(&a[20..24], &0xCBF43926u32.to_le_bytes());
    assert_eq!(&a[24..28], &9u32.to_le_bytes());
    assert_eq!(&a[28..32], &9u32.to_le_bytes());
}

#[test]
fn deflated_entry_keeps_given_size_and_checksum() {
    let entries = vec![
        TnsFileEntry::new_ti_encrypted("a", vec![0]),
        TnsFileEntry::new_deflated("b.py", vec![9, 9], 77, 0xDEADBEEF),
    ];
    let a = build_tns_archive(&entries, false);
    let second = 10 + 26 + 1 + 1;
    assert_eq!(&a[second + 8..second + 10], &[0x08, 0]);
    assert_eq!(&a[second + 14..second + 18], &0xDEADBEEFu32.to_le_bytes());
    assert_eq!(&a[second + 18..second + 22], &2u32.to_le_bytes());
    assert_eq!(&a[second + 22..second + 26], &77u32.to_le_bytes());
}

#[test]
fn empty_archive_is_end_record_only() {
    let a = build_tns_archive(&Vec::new(), false);
    assert_eq!(a, vec![b'T', b'I', b'P', b'D', 0, 0, 0, 0, 0, 0, 0, 0, 0, 0, 0, 0, 0, 0, 0, 0, 0, 0]);
}
