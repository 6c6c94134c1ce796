use base64::Engine;
use cloud_storage_sync::checksum::checksum_bytes;
use cloud_storage_sync::checksum::decode_crc32c;
use cloud_storage_sync::checksum::u32_from_be;
use cloud_storage_sync::checksum::ChecksumBuilder;
use cloud_storage_sync::errors::Error;

#[test]
fn checksum_known_value() {
    // The CRC32C of this message is documented by the crc32c crate itself.
    assert_eq!(checksum_bytes(b"Hello world!"), 0x7B_98_E7_51);
}

#[test]
fn checksum_empty_is_zero() {
    assert_eq!(checksum_bytes(b""), 0);
    let builder = ChecksumBuilder::new();
    assert_eq!(builder.finish(), 0);
}

#[test]
fn streaming_equals_whole() {
    let payload = b"somefilecontents and then some more bytes".to_vec();
    let mut builder = ChecksumBuilder::new();
    builder.update(&payload[..7]);
    builder.update(&payload[7..8]);
    builder.update(&[]);
    builder.update(&payload[8..]);
    assert_eq!(builder.finish(), crc32c::crc32c(&payload));
    assert_eq!(builder.finish(), checksum_bytes(&payload));
}

#[test]
fn same_length_different_content_differs() {
    assert_ne!(checksum_bytes(b"abc"), checksum_bytes(b"abd"));
    assert_ne!(checksum_bytes(b"xyzxyzxyzxyz"), checksum_bytes(b"xyzxyzxyzxyw"));
}

#[test]
fn u32_from_be_reads_big_endian() {
    assert_eq!(u32_from_be(&[0x12, 0x34, 0x56, 0x78]), 0x1234_5678);
    assert_eq!(u32_from_be(&[0, 0, 0, 1]), 1);
    assert_eq!(u32_from_be(&[0xFF, 0xFF, 0xFF, 0xFF]), u32::MAX);
}

#[test]
fn decode_crc32c_decodes_listing_field() {
    assert_eq!(decode_crc32c(&b"EjRWeA==".to_vec()).unwrap(), 0x1234_5678);

    // Round trip through the same encoding a listing uses.
    let crc = checksum_bytes(b"somefilecontents");
    let field = base64::engine::general_purpose::STANDARD.encode(crc.to_be_bytes());
    assert_eq!(decode_crc32c(&field.into_bytes()).unwrap(), crc);
}

#[test]
fn decode_crc32c_rejects_bad_fields() {
    match decode_crc32c(&b"!!!".to_vec()) {
        Err(Error::BadChecksum { encoded }) => assert_eq!(encoded, b"!!!".to_vec()),
        r => panic!("expected a BadChecksum error, got {:?}", r),
    }
    // Valid base64 of fewer than four bytes.
    assert!(decode_crc32c(&b"AAA=".to_vec()).is_err());
}
