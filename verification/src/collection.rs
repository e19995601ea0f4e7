//! Collections of blobs.
//!
//! A collection names a group of ingested items that share a retrieval
//! strategy and a key schema. At runtime an item refers to its content by a
//! process-local identifier; the persisted form of the same structures
//! carries the durable digest instead, so each shape exists twice, with
//! total conversions between them that go through the digest table.

use vstd::prelude::*;

use crate::blobs::{BlobId, DigestTable};
use crate::digest::DigestData;
use crate::meta::{MetaTable, MetaValueV};
use crate::retrieval::AnyRetrieval;

verus! {

/// An item within a blob collection.
#[derive(Debug)]
pub struct Item {
    /// The runtime BlobId of this item.
    pub id: BlobId,
    /// The size of the blob data, in bytes.
    pub size: u64,
    /// Other user-defined key/value pairs for this item.
    pub extra: MetaTable,
}

/// The mathematical shape of an `Item`.
#[verifier::ext_equal]
pub struct ItemV {
    /// The identifier, as an index into the digest table.
    pub id: int,
    /// The size of the blob data, in bytes.
    pub size: u64,
    /// The metadata record.
    pub extra: Seq<(Seq<char>, MetaValueV)>,
}

impl View for Item {
    type V = ItemV;

    open spec fn view(&self) -> ItemV {
        ItemV { id: self.id@, size: self.size, extra: self.extra@ }
    }
}

/// The persisted form of an `Item`: the digest stands where the
/// process-local identifier stood.
#[derive(Debug)]
pub struct PersistedItem {
    /// The digest of the item's content.
    pub digest: DigestData,
    /// The size of the blob data, in bytes.
    pub size: u64,
    /// Other user-defined key/value pairs for this item.
    pub extra: MetaTable,
}

/// The mathematical shape of a `PersistedItem`.
#[verifier::ext_equal]
pub struct PersistedItemV {
    /// The digest bytes of the item's content.
    pub digest: Seq<u8>,
    /// The size of the blob data, in bytes.
    pub size: u64,
    /// The metadata record.
    pub extra: Seq<(Seq<char>, MetaValueV)>,
}

impl View for PersistedItem {
    type V = PersistedItemV;

    open spec fn view(&self) -> PersistedItemV {
        PersistedItemV { digest: self.digest@, size: self.size, extra: self.extra@ }
    }
}

/// How an item is written out: its identifier is translated to the digest
/// it stands for in `table`; size and metadata carry over unchanged.
pub open spec fn item_persists_to(it: ItemV, table: Seq<Seq<u8>>, p: PersistedItemV) -> bool {
    &&& 0 <= it.id < table.len()
    &&& p.digest == table[it.id]
    &&& p.size == it.size
    &&& p.extra == it.extra
}

/// How a persisted item is read back in: its digest is interned in `table`
/// (the table as it stands after the whole load) at the item's new
/// identifier; size and metadata carry over unchanged.
pub open spec fn item_revives_to(p: PersistedItemV, table: Seq<Seq<u8>>, it: ItemV) -> bool {
    &&& 0 <= it.id < table.len()
    &&& table[it.id] == p.digest
    &&& it.size == p.size
    &&& it.extra == p.extra
}

impl Item {
    /// Clone this item into its persistable version, translating the
    /// identifier to its digest through the table.
    pub fn to_persisted(&self, dtable: &DigestTable) -> (r: PersistedItem)
        requires
            0 <= self@.id < dtable@.len(),
        ensures
            item_persists_to(self@, dtable@, r@),
    {
        PersistedItem {
            digest: dtable.id_to_digest(self.id).clone(),
            size: self.size,
            extra: self.extra.clone(),
        }
    }
}

impl PersistedItem {
    /// Turn this persisted item back into a runtime one, re-interning its
    /// digest to obtain a (possibly new) identifier.
    pub fn into_runtime(self, dtable: &mut DigestTable) -> (r: Item)
        requires
            old(dtable).wf(),
        ensures
            final(dtable).wf(),
            old(dtable)@.len() <= final(dtable)@.len(),
            forall|i: int| 0 <= i < old(dtable)@.len() ==> final(dtable)@[i] == old(dtable)@[i],
            item_revives_to(self@, final(dtable)@, r@),
    {
        let id = dtable.digest_to_id(&self.digest);
        Item { id, size: self.size, extra: self.extra }
    }
}

/// Every identifier in the collection is within a table of `n` entries.
pub open spec fn coll_ids_within(c: CollectionV, n: int) -> bool {
    forall|k: int| 0 <= k < c.items.len() ==> 0 <= (#[trigger] c.items[k]).id < n
}

/// A collection of blobs.
#[derive(Debug)]
pub struct Collection {
    name: String,
    keys: Vec<String>,
    retrieval: AnyRetrieval,
    items: Vec<Item>,
    metadata: MetaTable,
}

/// The mathematical shape of a `Collection`.
#[verifier::ext_equal]
pub struct CollectionV {
    /// The collection's name.
    pub name: Seq<char>,
    /// The names of the fields that identify an item.
    pub keys: Seq<Seq<char>>,
    /// The retrieval strategy the collection's items share.
    pub retrieval: AnyRetrieval,
    /// The recorded items, in insertion order.
    pub items: Seq<ItemV>,
    /// Free-form metadata of the collection itself.
    pub metadata: Seq<(Seq<char>, MetaValueV)>,
}

impl View for Collection {
    type V = CollectionV;

    closed spec fn view(&self) -> CollectionV {
        CollectionV {
            name: self.name@,
            keys: self.keys@.map_values(|s: String| s@),
            retrieval: self.retrieval,
            items: self.items@.map_values(|it: Item| it@),
            metadata: self.metadata@,
        }
    }
}

/// The persisted form of a `Collection`.
#[derive(Debug)]
pub struct PersistedCollection {
    name: String,
    keys: Vec<String>,
    retrieval: AnyRetrieval,
    items: Vec<PersistedItem>,
    metadata: MetaTable,
}

/// The mathematical shape of a `PersistedCollection`.
#[verifier::ext_equal]
pub struct PersistedCollectionV {
    /// The collection's name.
    pub name: Seq<char>,
    /// The names of the fields that identify an item.
    pub keys: Seq<Seq<char>>,
    /// The retrieval strategy the collection's items share.
    pub retrieval: AnyRetrieval,
    /// The persisted items, in recorded order.
    pub items: Seq<PersistedItemV>,
    /// Free-form metadata of the collection itself.
    pub metadata: Seq<(Seq<char>, MetaValueV)>,
}

impl View for PersistedCollection {
    type V = PersistedCollectionV;

    closed spec fn view(&self) -> PersistedCollectionV {
        PersistedCollectionV {
            name: self.name@,
            keys: self.keys@.map_values(|s: String| s@),
            retrieval: self.retrieval,
            items: self.items@.map_values(|it: PersistedItem| it@),
            metadata: self.metadata@,
        }
    }
}

/// How a collection is written out: everything carries over unchanged but
/// the items' identifiers, which become digests through `table`.
pub open spec fn coll_persists_to(
    c: CollectionV,
    table: Seq<Seq<u8>>,
    p: PersistedCollectionV,
) -> bool {
    &&& p.name == c.name
    &&& p.keys == c.keys
    &&& p.retrieval == c.retrieval
    &&& p.metadata == c.metadata
    &&& p.items.len() == c.items.len()
    &&& forall|k: int|
        0 <= k < c.items.len() ==> item_persists_to(c.items[k], table, #[trigger] p.items[k])
}

/// How a persisted collection is read back in, against the table as it
/// stands after the whole load.
pub open spec fn coll_revives_to(
    p: PersistedCollectionV,
    table: Seq<Seq<u8>>,
    c: CollectionV,
) -> bool {
    &&& c.name == p.name
    &&& c.keys == p.keys
    &&& c.retrieval == p.retrieval
    &&& c.metadata == p.metadata
    &&& c.items.len() == p.items.len()
    &&& forall|k: int|
        0 <= k < p.items.len() ==> item_revives_to(p.items[k], table, #[trigger] c.items[k])
}

/// Copy a vector of strings, keeping its view.
fn clone_strings(v: &Vec<String>) -> (r: Vec<String>)
    ensures
        r@.map_values(|s: String| s@) == v@.map_values(|s: String| s@),
{
    let mut r: Vec<String> = Vec::new();
    let n = v.len();
    let mut i: usize = 0;
    while i < n
        invariant
            n == v@.len(),
            i <= n,
            r@.len() == i,
            forall|j: int| 0 <= j < i ==> (#[trigger] r@[j])@ == v@[j]@,
        decreases n - i,
    {
        r.push(v[i].clone());
        i = i + 1;
    }
    proof {
        assert(r@.map_values(|s: String| s@) =~= v@.map_values(|s: String| s@));
    }
    r
}

impl Collection {
    /// Create a new, empty collection.
    pub fn new(name: &str, retrieval: AnyRetrieval) -> (r: Self)
        ensures
            r@.name == name@,
            r@.keys == Seq::<Seq<char>>::empty(),
            r@.retrieval == retrieval,
            r@.items == Seq::<ItemV>::empty(),
            r@.metadata == Seq::<(Seq<char>, MetaValueV)>::empty(),
    {
        let r = Collection {
            name: name.to_owned(),
            keys: Vec::new(),
            retrieval,
            items: Vec::new(),
            metadata: MetaTable::new(),
        };
        proof {
            assert(r@.keys =~= Seq::<Seq<char>>::empty());
            assert(r@.items =~= Seq::<ItemV>::empty());
        }
        r
    }

    /// Change the set of keys used to uniquely identify items in this
    /// collection.
    pub fn set_keys(&mut self, keys: Vec<String>)
        ensures
            final(self)@ == (CollectionV {
                keys: keys@.map_values(|s: String| s@),
                ..old(self)@
            }),
    {
        self.keys = keys;
        proof {
            assert(final(self)@ =~= (CollectionV {
                keys: keys@.map_values(|s: String| s@),
                ..old(self)@
            }));
        }
    }

    /// The collection's name.
    pub fn name(&self) -> (r: &str)
        ensures
            r@ == self@.name,
    {
        self.name.as_str()
    }

    /// The collection's retrieval strategy.
    pub fn retrieval(&self) -> (r: &AnyRetrieval)
        ensures
            *r == self@.retrieval,
    {
        &self.retrieval
    }

    /// How many items the collection records.
    pub fn items_len(&self) -> (r: usize)
        ensures
            r == self@.items.len(),
    {
        self.items.len()
    }

    /// The item at position `i`, in insertion order.
    pub fn item_at(&self, i: usize) -> (r: &Item)
        requires
            i < self@.items.len(),
        ensures
            r@ == self@.items[i as int],
    {
        &self.items[i]
    }

    /// Record a freshly ingested item: its identifier, the byte size the
    /// ingestion counted, and the residual fields of the item
    /// specification. The item is appended after everything recorded so
    /// far; nothing else changes.
    pub fn record_item(&mut self, id: BlobId, size: u64, extra: MetaTable)
        ensures
            final(self)@ == (CollectionV {
                items: old(self)@.items.push(ItemV { id: id@, size, extra: extra@ }),
                ..old(self)@
            }),
    {
        self.items.push(Item { id, size, extra });
        proof {
            assert(final(self)@.items =~= old(self)@.items.push(
                ItemV { id: id@, size, extra: extra@ },
            ));
            assert(final(self)@ =~= (CollectionV {
                items: old(self)@.items.push(ItemV { id: id@, size, extra: extra@ }),
                ..old(self)@
            }));
        }
    }

    /// The position of the first item whose `key` field holds the text
    /// `value`, if any does.
    pub fn find_item_by_field(&self, key: &str, value: &str) -> (r: Option<usize>)
        ensures
            match r {
                Some(i) => 0 <= i < self@.items.len() && crate::meta::meta_find(
                    self@.items[i as int].extra,
                    key@,
                ) == Some(MetaValueV::Str(value@)) && (forall|j: int|
                    0 <= j < i ==> crate::meta::meta_find(
                        (#[trigger] self@.items[j]).extra,
                        key@,
                    ) != Some(MetaValueV::Str(value@))),
                None => forall|j: int|
                    0 <= j < self@.items.len() ==> crate::meta::meta_find(
                        (#[trigger] self@.items[j]).extra,
                        key@,
                    ) != Some(MetaValueV::Str(value@)),
            },
    {
        let n = self.items.len();
        let mut i: usize = 0;
        while i < n
            invariant
                n == self@.items.len(),
                n == self.items@.len(),
                i <= n,
                forall|j: int|
                    0 <= j < i ==> crate::meta::meta_find((#[trigger] self@.items[j]).extra, key@)
                        != Some(MetaValueV::Str(value@)),
            decreases n - i,
        {
            proof {
                assert(self@.items[i as int] == self.items@[i as int]@);
            }
            match self.items[i].extra.get(key) {
                Some(crate::meta::MetaValue::Str(s)) => {
                    if crate::manifest::str_eq(s.as_str(), value) {
                        return Some(i);
                    }
                },
                _ => {},
            }
            i = i + 1;
        }
        None
    }

    /// Whether two collections hold the same content: same name, keys,
    /// strategy, items and metadata.
    pub fn eq_collection(&self, other: &Collection) -> (r: bool)
        ensures
            r <==> self@ == other@,
    {
        if !(self.name == other.name) {
            return false;
        }
        if !(self.retrieval == other.retrieval) {
            return false;
        }
        let nk = self.keys.len();
        if nk != other.keys.len() {
            proof {
                assert(self@.keys.len() == nk && other@.keys.len() == other.keys@.len());
            }
            return false;
        }
        let mut i: usize = 0;
        while i < nk
            invariant
                nk == self.keys@.len() && nk == other.keys@.len(),
                i <= nk,
                forall|j: int| 0 <= j < i ==> self@.keys[j] == other@.keys[j],
            decreases nk - i,
        {
            if !(self.keys[i] == other.keys[i]) {
                proof {
                    assert(self@.keys[i as int] == self.keys@[i as int]@);
                    assert(other@.keys[i as int] == other.keys@[i as int]@);
                }
                return false;
            }
            i = i + 1;
        }
        let ni = self.items.len();
        if ni != other.items.len() {
            proof {
                assert(self@.items.len() == ni && other@.items.len() == other.items@.len());
            }
            return false;
        }
        let mut k: usize = 0;
        while k < ni
            invariant
                ni == self.items@.len() && ni == other.items@.len(),
                k <= ni,
                forall|j: int| 0 <= j < k ==> self@.items[j] == other@.items[j],
            decreases ni - k,
        {
            proof {
                assert(self@.items[k as int] == self.items@[k as int]@);
                assert(other@.items[k as int] == other.items@[k as int]@);
            }
            let a = &self.items[k];
            let b = &other.items[k];
            if !(a.id == b.id) {
                proof {
                    crate::blobs::lemma_blob_id_eq(a.id, b.id);
                    assert(self@.items[k as int].id != other@.items[k as int].id);
                }
                return false;
            }
            if a.size != b.size {
                return false;
            }
            if !a.extra.eq_table(&b.extra) {
                return false;
            }
            proof {
                assert(self@.items[k as int] =~= other@.items[k as int]);
            }
            k = k + 1;
        }
        if !self.metadata.eq_table(&other.metadata) {
            return false;
        }
        proof {
            assert(self@.keys =~= other@.keys);
            assert(self@.items =~= other@.items);
            assert(self@ =~= other@);
        }
        true
    }

    /// Clone this collection into its persistable version, translating
    /// every item's identifier to its digest. The conversion is total: no
    /// item is skipped.
    pub fn to_persisted(&self, dtable: &DigestTable) -> (r: PersistedCollection)
        requires
            coll_ids_within(self@, dtable@.len() as int),
        ensures
            coll_persists_to(self@, dtable@, r@),
    {
        let mut items: Vec<PersistedItem> = Vec::new();
        let n = self.items.len();
        let mut i: usize = 0;
        while i < n
            invariant
                n == self.items@.len(),
                coll_ids_within(self@, dtable@.len() as int),
                n == self@.items.len(),
                i <= n,
                items@.len() == i,
                forall|j: int|
                    0 <= j < i ==> item_persists_to(self@.items[j], dtable@, (#[trigger] items@[j])@),
            decreases n - i,
        {
            proof {
                assert(self@.items[i as int] == self.items@[i as int]@);
            }
            items.push(self.items[i].to_persisted(dtable));
            i = i + 1;
        }
        let r = PersistedCollection {
            name: self.name.clone(),
            keys: clone_strings(&self.keys),
            retrieval: self.retrieval,
            items,
            metadata: self.metadata.clone(),
        };
        proof {
            assert(r@.items.len() == self@.items.len());
            assert forall|k: int| 0 <= k < self@.items.len() implies item_persists_to(
                self@.items[k],
                dtable@,
                #[trigger] r@.items[k],
            ) by {
                assert(r@.items[k] == items@[k]@);
            }
        }
        r
    }
}

impl PersistedCollection {
    /// Assemble a persisted collection from its parts.
    pub fn assemble(
        name: String,
        keys: Vec<String>,
        retrieval: AnyRetrieval,
        items: Vec<PersistedItem>,
        metadata: MetaTable,
    ) -> (r: PersistedCollection)
        ensures
            r@ == (PersistedCollectionV {
                name: name@,
                keys: keys@.map_values(|s: String| s@),
                retrieval,
                items: items@.map_values(|it: PersistedItem| it@),
                metadata: metadata@,
            }),
    {
        PersistedCollection { name, keys, retrieval, items, metadata }
    }

    /// The collection's name.
    pub fn name(&self) -> (r: &str)
        ensures
            r@ == self@.name,
    {
        self.name.as_str()
    }

    /// How many keys the collection declares.
    pub fn keys_len(&self) -> (r: usize)
        ensures
            r == self@.keys.len(),
    {
        self.keys.len()
    }

    /// The key name at position `i`.
    pub fn key_at(&self, i: usize) -> (r: &str)
        requires
            i < self@.keys.len(),
        ensures
            r@ == self@.keys[i as int],
    {
        self.keys[i].as_str()
    }

    /// The retrieval strategy.
    pub fn retrieval(&self) -> (r: &AnyRetrieval)
        ensures
            *r == self@.retrieval,
    {
        &self.retrieval
    }

    /// How many items the collection records.
    pub fn items_len(&self) -> (r: usize)
        ensures
            r == self@.items.len(),
    {
        self.items.len()
    }

    /// The persisted item at position `i`.
    pub fn item_at(&self, i: usize) -> (r: &PersistedItem)
        requires
            i < self@.items.len(),
        ensures
            r@ == self@.items[i as int],
    {
        &self.items[i]
    }

    /// The collection's own metadata record.
    pub fn metadata(&self) -> (r: &MetaTable)
        ensures
            r@ == self@.metadata,
    {
        &self.metadata
    }

    /// Turn this persisted collection back into a runtime one,
    /// re-interning every item's digest. The conversion is total: no item
    /// is skipped, and the table keeps every entry it already had.
    pub fn into_runtime(self, dtable: &mut DigestTable) -> (r: Collection)
        requires
            old(dtable).wf(),
        ensures
            final(dtable).wf(),
            old(dtable)@.len() <= final(dtable)@.len(),
            forall|i: int| 0 <= i < old(dtable)@.len() ==> final(dtable)@[i] == old(dtable)@[i],
            coll_revives_to(self@, final(dtable)@, r@),
    {
        let PersistedCollection { name, keys, retrieval, items, metadata } = self;
        let ghost pv = items@.map_values(|it: PersistedItem| it@);
        let mut rt_items: Vec<Item> = Vec::new();
        let n = items.len();
        let mut i: usize = 0;
        while i < n
            invariant
                n == items@.len(),
                i <= n,
                rt_items@.len() == i,
                dtable.wf(),
                old(dtable)@.len() <= dtable@.len(),
                forall|j: int| 0 <= j < old(dtable)@.len() ==> dtable@[j] == old(dtable)@[j],
                pv == items@.map_values(|it: PersistedItem| it@),
                forall|j: int|
                    0 <= j < i ==> item_revives_to(pv[j], dtable@, (#[trigger] rt_items@[j])@),
            decreases n - i,
        {
            proof {
                assert(pv[i as int] == items@[i as int]@);
            }
            let ghost table_before = dtable@;
            let id = dtable.digest_to_id(&items[i].digest);
            let size = items[i].size;
            let extra = items[i].extra.clone();
            rt_items.push(Item { id, size, extra });
            proof {
                assert forall|j: int| 0 <= j < i + 1 implies item_revives_to(
                    pv[j],
                    dtable@,
                    (#[trigger] rt_items@[j])@,
                ) by {
                    if j < i {
                        assert(item_revives_to(pv[j], table_before, rt_items@[j]@));
                        assert(dtable@[rt_items@[j]@.id] == table_before[rt_items@[j]@.id]);
                    }
                }
            }
            i = i + 1;
        }
        let r = Collection { name, keys, retrieval, items: rt_items, metadata };
        proof {
            assert(r@.items.len() == self@.items.len());
            assert forall|k: int| 0 <= k < self@.items.len() implies item_revives_to(
                self@.items[k],
                dtable@,
                #[trigger] r@.items[k],
            ) by {
                assert(r@.items[k] == rt_items@[k]@);
                assert(self@.items[k] == pv[k]);
            }
        }
        r
    }
}

} // verus!
