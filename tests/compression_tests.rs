use luna_rs::compression::{
    compress_xml, compress_xml_with_size, decompress_xml, estimate_compressed_size,
};

#[test]
fn test_compress_decompress_roundtrip() {
    let original = b"Hello, World! This is a test of compression.";
    let compressed = compress_xml(original).unwrap();
    assert!(!compressed.is_empty());
    let decompressed = decompress_xml(&compressed).unwrap();
    assert_eq!(decompressed, original);
}

#[test]
fn test_compress_xml_data() {
    let xml = b"<test><data>Some XML content</data></test>";
    let compressed = compress_xml(xml).unwrap();
    assert!(!compressed.is_empty());
    let decompressed = decompress_xml(&compressed).unwrap();
    assert_eq!(decompressed, xml);
}

#[test]
fn test_compress_empty_data() {
    let empty: &[u8] = b"";
    let compressed = compress_xml(empty).unwrap();
    let decompressed = decompress_xml(&compressed).unwrap();
    assert_eq!(decompressed, empty);
}

#[test]
fn test_compress_xml_with_size() {
    let data = b"Test data for compression";
    let (compressed, size) = compress_xml_with_size(data).unwrap();
    assert_eq!(compressed.len(), size);
    assert!(!compressed.is_empty());
}

#[test]
fn test_estimate_compressed_size() {
    assert_eq!(estimate_compressed_size(100), 100 + 10 + 12);
    assert_eq!(estimate_compressed_size(1000), 1000 + 100 + 12);
    assert_eq!(estimate_compressed_size(0), 12);
}

#[test]
fn test_compress_large_repeated_data() {
    let data = vec![b'A'; 1000];
    let compressed = compress_xml(&data).unwrap();
    assert!(compressed.len() < data.len() / 2);
    let decompressed = decompress_xml(&compressed).unwrap();
    assert_eq!(decompressed, data);
}

#[test]
fn test_decompress_invalid_data() {
    let invalid_data = b"This is not compressed data";
    let result = decompress_xml(invalid_data);
    assert!(result.is_err());
}

#[test]
fn test_compress_xml_header() {
    let xml = b"TIXC0100-1.0?><prob xmlns=\"urn:TI.Problem\"><test/></prob>";
    let compressed = compress_xml(xml).unwrap();
    let decompressed = decompress_xml(&compressed).unwrap();
    assert_eq!(decompressed, xml);
}

#[test]
fn compression_changes_repetitive_data() {
    let data = vec![b'A'; 1000];
    let compressed = compress_xml(&data).unwrap();
    assert_ne!(compressed, data);
}

#[test]
fn estimate_rounds_the_tenth_down() {
    assert_eq!(estimate_compressed_size(19), 19 + 1 + 12);
}
