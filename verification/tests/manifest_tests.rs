use blobman::blobs::DigestTable;
use blobman::collection::Collection;
use blobman::digest::DigestData;
use blobman::manifest::{Manifest, UpsertOutcome};
use blobman::meta::{MetaTable, MetaValue};
use blobman::notify::NoopNotificationBackend;
use blobman::retrieval::{AnyRetrieval, UrlRetrieval};

fn url_extra(url: &str) -> MetaTable {
    let mut t = MetaTable::new();
    t.push("url", MetaValue::Str(url.to_string()));
    t
}

fn sample_collection(name: &str, table: &mut DigestTable) -> (Collection, DigestData, DigestData) {
    let d1 = DigestData::from_bytes([1u8; 32]);
    let d2 = DigestData::from_bytes([2u8; 32]);
    let id1 = table.digest_to_id(&d1);
    let id2 = table.digest_to_id(&d2);
    let mut c = Collection::new(name, AnyRetrieval::Url(UrlRetrieval::new()));
    c.set_keys(vec!["url".to_string()]);
    c.record_item(id1, 5, url_extra("http://example.invalid/a"));
    c.record_item(id2, 7, url_extra("http://example.invalid/b"));
    (c, d1, d2)
}

#[test]
fn lookup_finds_collections_by_name() {
    let mut table = DigestTable::new();
    let mut nbe = NoopNotificationBackend::new();
    let mut m = Manifest::new();
    let (c, _, _) = sample_collection("www", &mut table);
    assert_eq!(m.insert_or_update(c, &mut nbe), UpsertOutcome::Inserted);
    assert!(m.lookup("www").is_some());
    assert!(m.lookup("nothing").is_none());
    assert_eq!(m.lookup("www").unwrap().name(), "www");
}

#[test]
fn upsert_reports_what_it_did() {
    let mut table = DigestTable::new();
    let mut nbe = NoopNotificationBackend::new();
    let mut m = Manifest::new();
    let (c1, _, _) = sample_collection("www", &mut table);
    assert_eq!(m.insert_or_update(c1, &mut nbe), UpsertOutcome::Inserted);
    // the identical collection again: unchanged
    let (c2, _, _) = sample_collection("www", &mut table);
    assert_eq!(m.insert_or_update(c2, &mut nbe), UpsertOutcome::Unchanged);
    // same name, different content: replaced
    let (mut c3, _, _) = sample_collection("www", &mut table);
    let d3 = DigestData::from_bytes([3u8; 32]);
    let id3 = table.digest_to_id(&d3);
    c3.record_item(id3, 11, url_extra("http://example.invalid/c"));
    assert_eq!(m.insert_or_update(c3, &mut nbe), UpsertOutcome::Replaced);
    assert_eq!(m.len(), 1);
    assert_eq!(m.lookup("www").unwrap().items_len(), 3);
}

#[test]
fn record_item_in_appends_to_the_named_collection() {
    let mut table = DigestTable::new();
    let mut nbe = NoopNotificationBackend::new();
    let mut m = Manifest::new();
    let (c, _, _) = sample_collection("www", &mut table);
    m.insert_or_update(c, &mut nbe);
    let d = DigestData::from_bytes([4u8; 32]);
    let id = table.digest_to_id(&d);
    m.record_item_in("www", id, 13, url_extra("http://example.invalid/d")).unwrap();
    let coll = m.lookup("www").unwrap();
    assert_eq!(coll.items_len(), 3);
    let item = coll.item_at(2);
    assert_eq!(item.size, 13);
    assert!(table.id_to_digest(item.id).eq_digest(&d));
}

#[test]
fn record_item_in_rejects_an_unknown_name() {
    let mut table = DigestTable::new();
    let mut m = Manifest::new();
    let d = DigestData::from_bytes([4u8; 32]);
    let id = table.digest_to_id(&d);
    match m.record_item_in("nothing", id, 13, MetaTable::new()) {
        Err(blobman::errors::Error::UnknownBlob(name)) => assert_eq!(name, "nothing"),
        other => panic!("expected an unknown-name error, got {:?}", other),
    }
}

#[test]
fn persisted_collections_come_sorted_by_name() {
    let mut table = DigestTable::new();
    let mut nbe = NoopNotificationBackend::new();
    let mut m = Manifest::new();
    for name in ["zeta", "alpha", "mid"] {
        let (c, _, _) = sample_collection(name, &mut table);
        m.insert_or_update(c, &mut nbe);
    }
    let pm = m.to_persisted(&table);
    assert_eq!(pm.len(), 3);
    assert_eq!(pm.coll_at(0).name(), "alpha");
    assert_eq!(pm.coll_at(1).name(), "mid");
    assert_eq!(pm.coll_at(2).name(), "zeta");
}

#[test]
fn save_then_load_reproduces_the_graph_under_new_numbering() {
    // build a manifest against one table
    let mut table_a = DigestTable::new();
    let mut nbe = NoopNotificationBackend::new();
    let mut m = Manifest::new();
    let (c, d1, d2) = sample_collection("www", &mut table_a);
    m.insert_or_update(c, &mut nbe);
    let pm = m.to_persisted(&table_a);

    // the persisted items carry digests, never identifiers
    let pc = pm.coll_at(0);
    assert_eq!(pc.name(), "www");
    assert_eq!(pc.keys_len(), 1);
    assert_eq!(pc.key_at(0), "url");
    assert_eq!(pc.items_len(), 2);
    assert!(pc.item_at(0).digest.eq_digest(&d1));
    assert!(pc.item_at(1).digest.eq_digest(&d2));

    // load it against a table whose numbering starts differently
    let mut table_b = DigestTable::new();
    let unrelated = DigestData::from_bytes([99u8; 32]);
    table_b.digest_to_id(&unrelated);
    let m2 = pm.into_runtime(&mut table_b);

    let c2 = m2.lookup("www").expect("the collection survives the round trip");
    assert_eq!(c2.items_len(), 2);
    let i0 = c2.item_at(0);
    let i1 = c2.item_at(1);
    assert_eq!(i0.size, 5);
    assert_eq!(i1.size, 7);
    assert!(table_b.id_to_digest(i0.id).eq_digest(&d1));
    assert!(table_b.id_to_digest(i1.id).eq_digest(&d2));
    match i0.extra.get("url") {
        Some(MetaValue::Str(u)) => assert_eq!(u, "http://example.invalid/a"),
        other => panic!("expected the url field back, got {:?}", other),
    }
    match c2.retrieval() {
        AnyRetrieval::Url(_) => {}
    }
}
