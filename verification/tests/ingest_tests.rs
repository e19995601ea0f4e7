use blobman::digest::DigestData;
use blobman::storage::{FilesystemStorage, Ingestor};

const HELLO_SHA256: &str = "2cf24dba5fb0a30e26e83b2ac5b9e29e1b161e5c1fa7425e73043362938b9824";

fn ingest_chunks(chunks: &[&[u8]]) -> (u64, DigestData) {
    let mut ing = Ingestor::new();
    for chunk in chunks {
        ing.push_chunk(chunk).unwrap();
    }
    ing.finish()
}

#[test]
fn ingesting_hello_counts_five_bytes_and_hashes_them() {
    let (size, digest) = ingest_chunks(&[b"hello"]);
    assert_eq!(size, 5);
    assert_eq!(digest.to_hex(), HELLO_SHA256);
}

#[test]
fn chunk_boundaries_do_not_matter() {
    let (size, digest) = ingest_chunks(&[b"he", b"llo"]);
    assert_eq!(size, 5);
    assert_eq!(digest.to_hex(), HELLO_SHA256);
    let (size, digest) = ingest_chunks(&[b"h", b"e", b"l", b"l", b"o"]);
    assert_eq!(size, 5);
    assert_eq!(digest.to_hex(), HELLO_SHA256);
}

#[test]
fn ingesting_the_same_payload_twice_is_idempotent() {
    let (size1, d1) = ingest_chunks(&[b"hello"]);
    let (size2, d2) = ingest_chunks(&[b"hello"]);
    assert_eq!(size1, size2);
    assert_eq!(d1, d2);
    // the canonical destination is a pure function of the digest, so the
    // second ingest commits to the very same path and the store keeps one
    // file for the payload
    let storage = FilesystemStorage::new("/store");
    assert_eq!(storage.blob_path(&d1), storage.blob_path(&d2));
}

#[test]
fn empty_stream_has_size_zero_and_the_empty_digest() {
    let (size, digest) = ingest_chunks(&[]);
    assert_eq!(size, 0);
    assert_eq!(digest, DigestData::of_nothing());
}

#[test]
fn blob_paths_follow_the_two_level_layout() {
    let mut raw = [0u8; 32];
    raw[0] = 0xab;
    for b in raw.iter_mut().skip(1) {
        *b = 0xcd;
    }
    let d = DigestData::from_bytes(raw);
    let storage = FilesystemStorage::new("/store");
    assert_eq!(storage.prefix(), "/store");
    assert_eq!(storage.blob_dir(&d), "/store/ab");
    assert_eq!(storage.blob_path(&d), format!("/store/ab/{}", "cd".repeat(31)));
}

#[test]
fn different_digests_never_share_a_path() {
    let d1 = DigestData::from_bytes([0x11u8; 32]);
    let mut raw = [0x11u8; 32];
    raw[31] = 0x12;
    let d2 = DigestData::from_bytes(raw);
    let storage = FilesystemStorage::new("/store");
    assert_ne!(storage.blob_path(&d1), storage.blob_path(&d2));
}

#[test]
fn staging_template_lives_inside_the_store() {
    let storage = FilesystemStorage::new("/store");
    assert_eq!(storage.staging_template(), "/store/staging.XXXXXXXX");
}
