use blobman::blobs::DigestTable;
use blobman::digest::DigestData;

#[test]
fn identifiers_are_assigned_sequentially() {
    let mut table = DigestTable::new();
    assert_eq!(table.len(), 0);
    let a = table.digest_to_id(&DigestData::from_bytes([1u8; 32]));
    let b = table.digest_to_id(&DigestData::from_bytes([2u8; 32]));
    let c = table.digest_to_id(&DigestData::from_bytes([3u8; 32]));
    assert_eq!(a.as_usize(), 0);
    assert_eq!(b.as_usize(), 1);
    assert_eq!(c.as_usize(), 2);
    assert_eq!(table.len(), 3);
}

#[test]
fn digest_to_id_is_idempotent() {
    let mut table = DigestTable::new();
    let d1 = DigestData::from_bytes([7u8; 32]);
    let d2 = DigestData::from_bytes([9u8; 32]);
    let first = table.digest_to_id(&d1);
    let other = table.digest_to_id(&d2);
    // an equal digest maps to the identifier assigned the first time,
    // however often it is asked, and the table does not grow
    for _ in 0..3 {
        let again = table.digest_to_id(&DigestData::from_bytes([7u8; 32]));
        assert_eq!(again, first);
    }
    assert_ne!(other, first);
    assert_eq!(table.len(), 2);
}

#[test]
fn id_to_digest_inverts_digest_to_id() {
    let mut table = DigestTable::new();
    let d1 = DigestData::from_bytes([11u8; 32]);
    let d2 = DigestData::from_bytes([13u8; 32]);
    let a = table.digest_to_id(&d1);
    let b = table.digest_to_id(&d2);
    assert!(table.id_to_digest(a).eq_digest(&d1));
    assert!(table.id_to_digest(b).eq_digest(&d2));
}
