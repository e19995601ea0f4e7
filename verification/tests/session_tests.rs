use blobman::blobs::DigestTable;
use blobman::collection::Collection;
use blobman::config::{StorageInfo, StorageLocation, UserConfig};
use blobman::digest::DigestData;
use blobman::errors::Error;
use blobman::manifest::Manifest;
use blobman::meta::{MetaTable, MetaValue};
use blobman::notify::NoopNotificationBackend;
use blobman::retrieval::{AnyRetrieval, UrlRetrieval};
use blobman::{file_name_from_url_path, IngestMode, Session};

fn fresh_session(config: UserConfig) -> Session {
    Session::new(config, Manifest::new(), None, DigestTable::new())
}

#[test]
fn ingest_mode_words_parse_back() {
    assert_eq!(IngestMode::parse("update"), Ok(IngestMode::Update));
    assert_eq!(IngestMode::parse("trust"), Ok(IngestMode::TrustExisting));
    match IngestMode::parse("never") {
        Err(Error::UnknownIngestMode(w)) => assert_eq!(w, "never"),
        other => panic!("expected the unknown-mode error, got {:?}", other),
    }
    let words = IngestMode::stringifications();
    assert_eq!(words, vec!["update", "trust"]);
}

#[test]
fn file_names_come_from_the_last_url_path_segment() {
    assert_eq!(file_name_from_url_path("/dir/sub/file.bin").unwrap(), "file.bin");
    assert_eq!(file_name_from_url_path("file.bin").unwrap(), "file.bin");
    match file_name_from_url_path("/dir/sub/") {
        Err(Error::NoFileName(p)) => assert_eq!(p, "/dir/sub/"),
        other => panic!("expected the no-file-name error, got {:?}", other),
    }
    assert!(file_name_from_url_path("").is_err());
}

#[test]
fn storage_selection_takes_the_first_configured_area() {
    let mut nbe = NoopNotificationBackend::new();
    let none = UserConfig::new(Vec::new());
    assert_eq!(
        fresh_session(none).get_storage(&mut nbe).err(),
        Some(Error::NoStorageConfigured)
    );

    let config = UserConfig::new(vec![
        StorageInfo::new(StorageLocation::Filesystem("/var/blobs".to_string())),
        StorageInfo::new(StorageLocation::Filesystem("/ignored".to_string())),
    ]);
    let sess = fresh_session(config);
    let si = sess.get_storage(&mut nbe).unwrap();
    let storage = si.open(Err(&Error::NoStorageConfigured)).unwrap();
    assert_eq!(storage.prefix(), "/var/blobs");
}

#[test]
fn relative_filesystem_storage_is_rejected() {
    let si = StorageInfo::new(StorageLocation::Filesystem("relative/path".to_string()));
    match si.open(Err(&Error::NoStorageConfigured)) {
        Err(Error::StorageNotAbsolute(p)) => assert_eq!(p, "relative/path"),
        other => panic!("expected the not-absolute error, got {:?}", other),
    }
}

#[test]
fn user_cache_storage_roots_at_the_resolved_directory() {
    let si = StorageInfo::new(StorageLocation::UserCache("blobman".to_string()));
    assert_eq!(si.cache_subdir(), Some("blobman"));
    let storage = si.open(Ok("/home/someone/.cache/blobman")).unwrap();
    assert_eq!(storage.prefix(), "/home/someone/.cache/blobman");
}

#[test]
fn default_configuration_uses_the_user_cache() {
    let config = UserConfig::default();
    assert_eq!(config.storage_len(), 1);
    let mut nbe = NoopNotificationBackend::new();
    let sess = fresh_session(config);
    let si = sess.get_storage(&mut nbe).unwrap();
    assert_eq!(si.cache_subdir(), Some("blobman"));
}

#[test]
fn trust_existing_skips_only_known_names() {
    let mut nbe = NoopNotificationBackend::new();
    let mut sess = fresh_session(UserConfig::default());
    assert!(!sess.should_skip_ingest(IngestMode::TrustExisting, "www"));
    assert!(!sess.should_skip_ingest(IngestMode::Update, "www"));
    let c = Collection::new("www", AnyRetrieval::Url(UrlRetrieval::new()));
    sess.insert_collection(c, &mut nbe);
    assert!(sess.should_skip_ingest(IngestMode::TrustExisting, "www"));
    assert!(!sess.should_skip_ingest(IngestMode::Update, "www"));
}

#[test]
fn session_tracks_manifest_changes_and_save_path() {
    let mut nbe = NoopNotificationBackend::new();
    let mut sess = fresh_session(UserConfig::default());
    assert!(!sess.manifest_modified());
    assert_eq!(sess.save_path(), ".blobs.toml");

    let c = Collection::new("www", AnyRetrieval::Url(UrlRetrieval::new()));
    sess.insert_collection(c, &mut nbe);
    assert!(sess.manifest_modified());

    let d = DigestData::from_bytes([5u8; 32]);
    let id = sess.digest_to_id(&d);
    let mut extra = MetaTable::new();
    extra.push("url", MetaValue::Str("http://example.invalid/x".to_string()));
    sess.record_item_in("www", id, 42, extra).unwrap();

    let pm = sess.to_persisted_manifest();
    assert_eq!(pm.len(), 1);
    assert_eq!(pm.coll_at(0).items_len(), 1);
    assert!(pm.coll_at(0).item_at(0).digest.eq_digest(&d));
    sess.mark_saved();
    assert!(!sess.manifest_modified());
}

#[test]
fn session_remembers_where_the_manifest_was_found() {
    let sess = Session::new(
        UserConfig::default(),
        Manifest::new(),
        Some("../../.blobs.toml".to_string()),
        DigestTable::new(),
    );
    assert_eq!(sess.save_path(), "../../.blobs.toml");
}

#[test]
fn url_retrieval_requires_a_text_url_field() {
    let retr = AnyRetrieval::Url(UrlRetrieval::new());
    let mut spec = MetaTable::new();
    spec.push("url", MetaValue::Str("http://example.invalid/f".to_string()));
    assert_eq!(retr.resolve(&spec).unwrap(), "http://example.invalid/f");

    let empty = MetaTable::new();
    assert_eq!(retr.resolve(&empty), Err(Error::MissingUrlField));

    let mut wrong = MetaTable::new();
    wrong.push("url", MetaValue::Int(7));
    assert_eq!(retr.resolve(&wrong), Err(Error::MissingUrlField));
}

#[test]
fn metadata_tables_look_up_by_key() {
    let mut t = MetaTable::new();
    t.push("alpha", MetaValue::Int(1));
    t.push("beta", MetaValue::Bool(true));
    assert_eq!(t.len(), 2);
    assert_eq!(t.key_at(0), "alpha");
    assert!(t.value_at(1).eq_value(&MetaValue::Bool(true)));
    assert!(t.get("alpha").unwrap().eq_value(&MetaValue::Int(1)));
    assert!(t.get("gamma").is_none());
    let u = t.clone();
    assert!(t.eq_table(&u));
}
