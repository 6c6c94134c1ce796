use cloud_storage_sync::checksum::checksum_bytes;
use cloud_storage_sync::policy::check_checksum;
use cloud_storage_sync::policy::check_size;
use cloud_storage_sync::policy::needs_transfer;
use cloud_storage_sync::policy::ObjectMeta;
use cloud_storage_sync::policy::SizeCheck;

fn meta_of(payload: &[u8]) -> ObjectMeta {
    ObjectMeta { size: payload.len() as u64, crc32c: checksum_bytes(payload) }
}

#[test]
fn equal_size_different_content_needs_transfer() {
    // Two same-length payloads with different bytes have differing checksums,
    // and the policy catches the change even though the sizes match.
    let src = meta_of(b"abc");
    let dst = meta_of(b"abd");
    assert_eq!(src.size, dst.size);
    assert_ne!(src.crc32c, dst.crc32c);
    assert_eq!(check_size(false, src.size, Some(dst.size)), SizeCheck::CompareChecksum);
    assert!(check_checksum(src.crc32c, dst.crc32c));
    assert!(needs_transfer(false, src, Some(dst)));
}

#[test]
fn size_mismatch_short_circuits() {
    // Differing sizes order the transfer from the size stage alone; no
    // checksum of either side is consulted.
    assert_eq!(check_size(false, 3, Some(12)), SizeCheck::Transfer);
    let src = meta_of(b"abc");
    let dst = meta_of(b"xyzxyzxyzxyz");
    assert!(needs_transfer(false, src, Some(dst)));
}

#[test]
fn force_overwrites_identical_destination() {
    let src = meta_of(b"abc");
    assert_eq!(check_size(true, src.size, Some(src.size)), SizeCheck::Transfer);
    assert!(needs_transfer(true, src, Some(src)));
}

#[test]
fn missing_destination_needs_transfer() {
    let src = meta_of(b"abc");
    assert_eq!(check_size(false, src.size, None), SizeCheck::Transfer);
    assert!(needs_transfer(false, src, None));
}

#[test]
fn identical_destination_is_skipped() {
    let src = meta_of(b"abc");
    assert!(!needs_transfer(false, src, Some(src)));
}
