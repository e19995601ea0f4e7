//! Handling of the manifest of known blob collections.
//!
//! The manifest is a table of collections keyed by name. At runtime its
//! items refer to content by process-local identifiers; the persisted form
//! carries digests instead, emitted sorted by collection name so the
//! written document is deterministic and diff-friendly. Locating the
//! manifest document on disk is an upward search from the working
//! directory, driven as a pure state machine whose probes the unverified
//! shell answers.

use vstd::prelude::*;
use vstd::string::StringExecFns;

use crate::blobs::DigestTable;
use crate::collection::{
    coll_persists_to, coll_revives_to, Collection, CollectionV, PersistedCollection,
    PersistedCollectionV,
};
use crate::errors::Error;
use crate::notify::{NotificationBackend, NotificationKind};

verus! {

/// Lexicographic order on names, by character value.
pub open spec fn lex_le(a: Seq<char>, b: Seq<char>) -> bool
    decreases a.len(),
{
    if a.len() == 0 {
        true
    } else if b.len() == 0 {
        false
    } else if (a.first() as u32) < (b.first() as u32) {
        true
    } else if (a.first() as u32) > (b.first() as u32) {
        false
    } else {
        lex_le(a.drop_first(), b.drop_first())
    }
}

/// Any two names are ordered one way or the other.
pub proof fn lemma_lex_total(a: Seq<char>, b: Seq<char>)
    ensures
        lex_le(a, b) || lex_le(b, a),
    decreases a.len(),
{
    if a.len() > 0 && b.len() > 0 && (a.first() as u32) == (b.first() as u32) {
        lemma_lex_total(a.drop_first(), b.drop_first());
    }
}

/// The order chains: what is at most `b`, and `b` at most `c`, is at most
/// `c`.
pub proof fn lemma_lex_trans(a: Seq<char>, b: Seq<char>, c: Seq<char>)
    requires
        lex_le(a, b),
        lex_le(b, c),
    ensures
        lex_le(a, c),
    decreases a.len(),
{
    if a.len() > 0 && b.len() > 0 && c.len() > 0 && (a.first() as u32) == (b.first() as u32) && (
    b.first() as u32) == (c.first() as u32) {
        lemma_lex_trans(a.drop_first(), b.drop_first(), c.drop_first());
    }
}

/// Whether `a` comes at or before `b` in the order persisted collections
/// are written.
pub fn str_lex_le(a: &str, b: &str) -> (r: bool)
    ensures
        r == lex_le(a@, b@),
{
    let na = a.unicode_len();
    let nb = b.unicode_len();
    let mut i: usize = 0;
    proof {
        assert(a@.skip(0) =~= a@);
        assert(b@.skip(0) =~= b@);
    }
    while i < na && i < nb
        invariant
            na == a@.len(),
            nb == b@.len(),
            i <= na,
            i <= nb,
            lex_le(a@, b@) == lex_le(a@.skip(i as int), b@.skip(i as int)),
        decreases na - i,
    {
        let ca = a.get_char(i);
        let cb = b.get_char(i);
        proof {
            let ta = a@.skip(i as int);
            let tb = b@.skip(i as int);
            assert(ta.first() == a@[i as int] && tb.first() == b@[i as int]);
            assert(ta.drop_first() =~= a@.skip(i as int + 1));
            assert(tb.drop_first() =~= b@.skip(i as int + 1));
        }
        if (ca as u32) < (cb as u32) {
            return true;
        }
        if (ca as u32) > (cb as u32) {
            return false;
        }
        i = i + 1;
    }
    proof {
        if i >= na {
            assert(a@.skip(i as int).len() == 0);
        } else {
            assert(b@.skip(i as int).len() == 0 && a@.skip(i as int).len() > 0);
        }
    }
    i >= na
}

/// Whether two strings hold the same characters.
pub fn str_eq(a: &str, b: &str) -> (r: bool)
    ensures
        r == (a@ == b@),
{
    let sa = a.to_owned();
    let sb = b.to_owned();
    sa == sb
}

/// No two collections of the manifest share a name.
pub open spec fn manifest_wf(s: Seq<CollectionV>) -> bool {
    forall|i: int, j: int|
        0 <= i < j < s.len() ==> (#[trigger] s[i]).name != (#[trigger] s[j]).name
}

/// Whether some collection of `s` is named `name`.
pub open spec fn has_coll(s: Seq<CollectionV>, name: Seq<char>) -> bool {
    exists|i: int| 0 <= i < s.len() && (#[trigger] s[i]).name == name
}

/// The collection of `s` named `name`; meaningful where `has_coll` holds
/// and names are unique.
pub open spec fn coll_named(s: Seq<CollectionV>, name: Seq<char>) -> CollectionV {
    s[choose|i: int| 0 <= i < s.len() && (#[trigger] s[i]).name == name]
}

/// The entry under `name`, where there is one.
pub open spec fn find_coll(s: Seq<CollectionV>, name: Seq<char>) -> Option<CollectionV> {
    if has_coll(s, name) {
        Some(coll_named(s, name))
    } else {
        None
    }
}

/// What an upsert into the manifest did.
#[derive(Clone, Copy, Debug, Eq, PartialEq, Structural)]
pub enum UpsertOutcome {
    /// No entry of that name existed; the collection was inserted silently.
    Inserted,
    /// An identical entry existed; nothing changed.
    Unchanged,
    /// An entry of the same name but different content was replaced.
    Replaced,
}

/// A table of blob collections.
#[derive(Debug)]
pub struct Manifest {
    collections: Vec<Collection>,
}

impl View for Manifest {
    type V = Seq<CollectionV>;

    closed spec fn view(&self) -> Seq<CollectionV> {
        self.collections@.map_values(|c: Collection| c@)
    }
}

impl Manifest {
    /// No two collections share a name.
    pub open spec fn wf(&self) -> bool {
        manifest_wf(self@)
    }

    /// Create a new, empty manifest.
    pub fn new() -> (r: Manifest)
        ensures
            r@ == Seq::<CollectionV>::empty(),
            r.wf(),
    {
        let r = Manifest { collections: Vec::new() };
        proof {
            assert(r@ =~= Seq::<CollectionV>::empty());
        }
        r
    }

    /// How many collections the manifest holds.
    pub fn len(&self) -> (r: usize)
        ensures
            r == self@.len(),
    {
        self.collections.len()
    }

    /// The collection at position `i`, in insertion order. The persisted
    /// form has its own, sorted order; this one carries no meaning.
    pub fn coll_at(&self, i: usize) -> (r: &Collection)
        requires
            i < self@.len(),
        ensures
            r@ == self@[i as int],
    {
        &self.collections[i]
    }

    /// Look up a collection by name.
    pub fn lookup(&self, name: &str) -> (r: Option<&Collection>)
        requires
            self.wf(),
        ensures
            match find_coll(self@, name@) {
                Some(c) => r matches Some(col) && col@ == c,
                None => r is None,
            },
    {
        let n = self.collections.len();
        let mut i: usize = 0;
        while i < n
            invariant
                self.wf(),
                n == self@.len(),
                i <= n,
                forall|j: int| 0 <= j < i ==> (#[trigger] self@[j]).name != name@,
            decreases n - i,
        {
            proof {
                assert(self@[i as int] == self.collections@[i as int]@);
            }
            if str_eq(self.collections[i].name(), name) {
                proof {
                    assert(has_coll(self@, name@));
                    let w = choose|k: int|
                        0 <= k < self@.len() && (#[trigger] self@[k]).name == name@;
                    if w != i as int {
                        assert((self@[w]).name == (self@[i as int]).name);
                        assert(false);
                    }
                }
                return Some(&self.collections[i]);
            }
            i = i + 1;
        }
        proof {
            if has_coll(self@, name@) {
                let w = choose|k: int| 0 <= k < self@.len() && (#[trigger] self@[k]).name == name@;
                assert(false);
            }
        }
        None
    }

    /// Insert a collection, or update the entry of the same name.
    ///
    /// A new name is inserted silently. An entry of the same name with
    /// identical content is left alone and reported unchanged; one with
    /// different content is replaced, and the difference reported to the
    /// observer.
    pub fn insert_or_update<B: NotificationBackend>(
        &mut self,
        coll: Collection,
        nbe: &mut B,
    ) -> (r: UpsertOutcome)
        requires
            old(self).wf(),
        ensures
            final(self).wf(),
            !has_coll(old(self)@, coll@.name) ==> r == UpsertOutcome::Inserted && final(self)@
                == old(self)@.push(coll@),
            has_coll(old(self)@, coll@.name) && coll_named(old(self)@, coll@.name) == coll@ ==> r
                == UpsertOutcome::Unchanged && final(self)@ == old(self)@,
            has_coll(old(self)@, coll@.name) && coll_named(old(self)@, coll@.name) != coll@ ==> r
                == UpsertOutcome::Replaced && (exists|i: int|
                0 <= i < old(self)@.len() && (#[trigger] old(self)@[i]).name == coll@.name
                    && final(self)@ == old(self)@.update(i, coll@)),
    {
        let n = self.collections.len();
        let mut i: usize = 0;
        while i < n
            invariant
                self@ == old(self)@,
                self.wf(),
                n == self@.len(),
                i <= n,
                forall|j: int| 0 <= j < i ==> (#[trigger] self@[j]).name != coll@.name,
            decreases n - i,
        {
            proof {
                assert(self@[i as int] == self.collections@[i as int]@);
            }
            if str_eq(self.collections[i].name(), coll.name()) {
                proof {
                    assert(has_coll(self@, coll@.name));
                    let w = choose|k: int|
                        0 <= k < self@.len() && (#[trigger] self@[k]).name == coll@.name;
                    if w != i as int {
                        assert((self@[w]).name == (self@[i as int]).name);
                        assert(false);
                    }
                    assert(coll_named(self@, coll@.name) == self@[i as int]);
                }
                if self.collections[i].eq_collection(&coll) {
                    nbe.notify(NotificationKind::Note, "collection unchanged", None);
                    return UpsertOutcome::Unchanged;
                }
                let ghost pre = self@;
                let _ = self.collections.remove(i);
                self.collections.insert(i, coll);
                proof {
                    assert(self@ =~= pre.update(i as int, coll@));
                    assert forall|a: int, b: int| 0 <= a < b < self@.len() implies (
                    #[trigger] self@[a]).name != (#[trigger] self@[b]).name by {
                        assert(pre[a].name != pre[b].name);
                        if a != i as int && b != i as int {
                            assert(self@[a] == pre[a] && self@[b] == pre[b]);
                        }
                    }
                }
                nbe.notify(NotificationKind::Note, "collection replaced", None);
                return UpsertOutcome::Replaced;
            }
            i = i + 1;
        }
        let ghost pre = self@;
        self.collections.push(coll);
        proof {
            assert(self@ =~= pre.push(coll@));
            if has_coll(pre, coll@.name) {
                let w = choose|k: int| 0 <= k < pre.len() && (#[trigger] pre[k]).name == coll@.name;
                assert(false);
            }
            assert forall|a: int, b: int| 0 <= a < b < self@.len() implies (
            #[trigger] self@[a]).name != (#[trigger] self@[b]).name by {
                if b < self@.len() - 1 {
                    assert(pre[a].name != pre[b].name);
                } else {
                    assert(self@[a] == pre[a]);
                    assert(forall|j: int| 0 <= j < pre.len() ==> (#[trigger] pre[j]).name
                        != coll@.name);
                }
            }
        }
        UpsertOutcome::Inserted
    }
}

impl Manifest {
    /// Append a freshly ingested item to the collection named `name`.
    ///
    /// With no collection of that name, nothing changes and the unknown-name
    /// error comes back.
    pub fn record_item_in(
        &mut self,
        name: &str,
        id: crate::blobs::BlobId,
        size: u64,
        extra: crate::meta::MetaTable,
    ) -> (r: Result<(), Error>)
        requires
            old(self).wf(),
        ensures
            final(self).wf(),
            !has_coll(old(self)@, name@) ==> final(self)@ == old(self)@ && (r matches Err(e)
                && e matches Error::UnknownBlob(s) && s@ == name@),
            has_coll(old(self)@, name@) ==> r is Ok && (exists|i: int|
                0 <= i < old(self)@.len() && (#[trigger] old(self)@[i]).name == name@
                    && final(self)@ == old(self)@.update(
                    i,
                    CollectionV {
                        items: old(self)@[i].items.push(
                            crate::collection::ItemV { id: id@, size, extra: extra@ },
                        ),
                        ..old(self)@[i]
                    },
                )),
    {
        let n = self.collections.len();
        let mut i: usize = 0;
        while i < n
            invariant
                self@ == old(self)@,
                self.wf(),
                n == self@.len(),
                i <= n,
                forall|j: int| 0 <= j < i ==> (#[trigger] self@[j]).name != name@,
            decreases n - i,
        {
            proof {
                assert(self@[i as int] == self.collections@[i as int]@);
            }
            if str_eq(self.collections[i].name(), name) {
                let ghost pre = self@;
                let mut coll = self.collections.remove(i);
                coll.record_item(id, size, extra);
                self.collections.insert(i, coll);
                proof {
                    let updated = CollectionV {
                        items: pre[i as int].items.push(
                            crate::collection::ItemV { id: id@, size, extra: extra@ },
                        ),
                        ..pre[i as int]
                    };
                    assert(self@ =~= pre.update(i as int, updated));
                    assert(has_coll(pre, name@));
                    assert forall|a: int, b: int| 0 <= a < b < self@.len() implies (
                    #[trigger] self@[a]).name != (#[trigger] self@[b]).name by {
                        assert(pre[a].name != pre[b].name);
                        if a != i as int && b != i as int {
                            assert(self@[a] == pre[a] && self@[b] == pre[b]);
                        }
                    }
                }
                return Ok(());
            }
            i = i + 1;
        }
        proof {
            if has_coll(self@, name@) {
                let w = choose|k: int| 0 <= k < self@.len() && (#[trigger] self@[k]).name == name@;
                assert(false);
            }
        }
        Err(Error::UnknownBlob(name.to_owned()))
    }
}

/// No two persisted collections share a name.
pub open spec fn pm_wf(p: Seq<PersistedCollectionV>) -> bool {
    forall|i: int, j: int|
        0 <= i < j < p.len() ==> (#[trigger] p[i]).name != (#[trigger] p[j]).name
}

/// Whether some persisted collection of `p` is named `name`.
pub open spec fn has_pcoll(p: Seq<PersistedCollectionV>, name: Seq<char>) -> bool {
    exists|i: int| 0 <= i < p.len() && (#[trigger] p[i]).name == name
}

/// The persisted collections come sorted by name.
pub open spec fn sorted_by_name(p: Seq<PersistedCollectionV>) -> bool {
    forall|i: int, j: int|
        0 <= i < j < p.len() ==> lex_le((#[trigger] p[i]).name, (#[trigger] p[j]).name)
}

/// The persisted collection `pc` is the faithful translation of the
/// manifest entry of its name.
pub open spec fn persisted_matches(
    m: Seq<CollectionV>,
    table: Seq<Seq<u8>>,
    pc: PersistedCollectionV,
) -> bool {
    has_coll(m, pc.name) && coll_persists_to(coll_named(m, pc.name), table, pc)
}

/// How a whole manifest is written out: every persisted collection
/// translates the entry of its name, and every entry is covered — the
/// conversion is total, whatever order the entries are emitted in.
pub open spec fn manifest_persists_to(
    m: Seq<CollectionV>,
    table: Seq<Seq<u8>>,
    p: Seq<PersistedCollectionV>,
) -> bool {
    &&& p.len() == m.len()
    &&& forall|j: int| 0 <= j < p.len() ==> persisted_matches(m, table, #[trigger] p[j])
    &&& forall|i: int| 0 <= i < m.len() ==> has_pcoll(p, (#[trigger] m[i]).name)
}

/// How a whole persisted manifest is read back in, entry by entry, against
/// the table as it stands after the load.
pub open spec fn manifest_revives_to(
    p: Seq<PersistedCollectionV>,
    table: Seq<Seq<u8>>,
    m: Seq<CollectionV>,
) -> bool {
    &&& m.len() == p.len()
    &&& forall|j: int| 0 <= j < p.len() ==> coll_revives_to(#[trigger] p[j], table, m[j])
}

/// Every identifier of the manifest is within a table of `n` entries.
pub open spec fn manifest_ids_within(m: Seq<CollectionV>, n: int) -> bool {
    forall|i: int|
        0 <= i < m.len() ==> crate::collection::coll_ids_within(#[trigger] m[i], n)
}

/// In a manifest without repeated names, the entry found under the name of
/// position `i` is position `i` itself.
pub proof fn lemma_coll_named_at(s: Seq<CollectionV>, i: int)
    requires
        manifest_wf(s),
        0 <= i < s.len(),
    ensures
        has_coll(s, s[i].name),
        coll_named(s, s[i].name) == s[i],
{
    assert(has_coll(s, s[i].name));
    let w = choose|k: int| 0 <= k < s.len() && (#[trigger] s[k]).name == s[i].name;
    if w != i {
        assert(s[w].name == s[i].name);
        assert(false);
    }
}

/// A collection revived against a table keeps reviving as the table grows:
/// entries are never removed or reassigned.
pub proof fn lemma_coll_revives_monotone(
    p: PersistedCollectionV,
    t1: Seq<Seq<u8>>,
    t2: Seq<Seq<u8>>,
    c: CollectionV,
)
    requires
        coll_revives_to(p, t1, c),
        t1.len() <= t2.len(),
        forall|i: int| 0 <= i < t1.len() ==> t2[i] == t1[i],
    ensures
        coll_revives_to(p, t2, c),
{
    assert forall|k: int| 0 <= k < p.items.len() implies crate::collection::item_revives_to(
        p.items[k],
        t2,
        #[trigger] c.items[k],
    ) by {
        assert(crate::collection::item_revives_to(p.items[k], t1, c.items[k]));
    }
}

/// The persisted form of a whole manifest.
#[derive(Debug)]
pub struct PersistedManifest {
    collections: Vec<PersistedCollection>,
}

impl View for PersistedManifest {
    type V = Seq<PersistedCollectionV>;

    closed spec fn view(&self) -> Seq<PersistedCollectionV> {
        self.collections@.map_values(|c: PersistedCollection| c@)
    }
}

impl PersistedManifest {
    /// Assemble a persisted manifest from already-persisted collections.
    pub fn assemble(collections: Vec<PersistedCollection>) -> (r: PersistedManifest)
        ensures
            r@ == collections@.map_values(|c: PersistedCollection| c@),
    {
        PersistedManifest { collections }
    }

    /// How many collections the document holds.
    pub fn len(&self) -> (r: usize)
        ensures
            r == self@.len(),
    {
        self.collections.len()
    }

    /// The persisted collection at position `i`, in the emitted order.
    pub fn coll_at(&self, i: usize) -> (r: &PersistedCollection)
        requires
            i < self@.len(),
        ensures
            r@ == self@[i as int],
    {
        &self.collections[i]
    }

    /// Turn a loaded document back into a runtime manifest, re-interning
    /// every digest through the table. The conversion is total: no
    /// collection and no item is skipped, and the table keeps every entry
    /// it already had.
    pub fn into_runtime(self, dtable: &mut DigestTable) -> (r: Manifest)
        requires
            old(dtable).wf(),
        ensures
            final(dtable).wf(),
            old(dtable)@.len() <= final(dtable)@.len(),
            forall|i: int| 0 <= i < old(dtable)@.len() ==> final(dtable)@[i] == old(dtable)@[i],
            manifest_revives_to(self@, final(dtable)@, r@),
            pm_wf(self@) ==> r.wf(),
    {
        let PersistedManifest { mut collections } = self;
        let ghost pv = collections@.map_values(|c: PersistedCollection| c@);
        let mut out: Vec<Collection> = Vec::new();
        let n = collections.len();
        let mut i: usize = 0;
        while i < n
            invariant
                n == pv.len(),
                i <= n,
                out@.len() == i,
                collections@.map_values(|c: PersistedCollection| c@) =~= pv.skip(i as int),
                dtable.wf(),
                old(dtable)@.len() <= dtable@.len(),
                forall|j: int| 0 <= j < old(dtable)@.len() ==> dtable@[j] == old(dtable)@[j],
                forall|j: int|
                    0 <= j < i ==> coll_revives_to(pv[j], dtable@, (#[trigger] out@[j])@),
            decreases n - i,
        {
            let ghost table_before = dtable@;
            proof {
                let mapped = collections@.map_values(|c: PersistedCollection| c@);
                assert(mapped.len() == collections@.len());
                assert(collections@.len() == n - i);
                assert(mapped[0] == collections@[0]@);
                assert(pv.skip(i as int)[0] == pv[i as int]);
            }
            let ghost prevc = collections@;
            let coll = collections.remove(0);
            let c = coll.into_runtime(dtable);
            out.push(c);
            proof {
                let mapped = collections@.map_values(|c: PersistedCollection| c@);
                assert forall|k: int| 0 <= k < mapped.len() implies mapped[k] == pv[i + 1 + k] by {
                    assert(mapped[k] == collections@[k]@);
                    assert(collections@[k] == prevc[k + 1]);
                    assert(prevc.map_values(|c: PersistedCollection| c@)[k + 1] == prevc[k + 1]@);
                    assert(pv.skip(i as int)[k + 1] == pv[i + 1 + k]);
                }
                assert(mapped =~= pv.skip(i as int + 1));
                assert forall|j: int| 0 <= j < i + 1 implies coll_revives_to(
                    pv[j],
                    dtable@,
                    (#[trigger] out@[j])@,
                ) by {
                    if j < i {
                        lemma_coll_revives_monotone(pv[j], table_before, dtable@, out@[j]@);
                    }
                }
            }
            i = i + 1;
        }
        let r = Manifest { collections: out };
        proof {
            assert(r@.len() == self@.len());
            assert forall|j: int| 0 <= j < self@.len() implies coll_revives_to(
                #[trigger] self@[j],
                dtable@,
                r@[j],
            ) by {
                assert(self@[j] == pv[j]);
            }
            if pm_wf(self@) {
                assert forall|a: int, b: int| 0 <= a < b < r@.len() implies (
                #[trigger] r@[a]).name != (#[trigger] r@[b]).name by {
                    assert(coll_revives_to(self@[a], dtable@, r@[a]));
                    assert(coll_revives_to(self@[b], dtable@, r@[b]));
                    assert(self@[a].name != self@[b].name);
                }
            }
        }
        r
    }
}

impl Manifest {
    /// Clone this manifest into its persistable version: every identifier
    /// becomes its digest, and the collections are emitted sorted by name
    /// for deterministic, diff-friendly output. The conversion is total.
    pub fn to_persisted(&self, dtable: &DigestTable) -> (r: PersistedManifest)
        requires
            self.wf(),
            manifest_ids_within(self@, dtable@.len() as int),
        ensures
            manifest_persists_to(self@, dtable@, r@),
            sorted_by_name(r@),
            pm_wf(r@),
    {
        let mut out: Vec<PersistedCollection> = Vec::new();
        let n = self.collections.len();
        let mut i: usize = 0;
        while i < n
            invariant
                self.wf(),
                manifest_ids_within(self@, dtable@.len() as int),
                n == self@.len(),
                i <= n,
                out@.len() == i,
                sorted_by_name(out@.map_values(|c: PersistedCollection| c@)),
                pm_wf(out@.map_values(|c: PersistedCollection| c@)),
                forall|j: int|
                    0 <= j < i ==> exists|idx: int|
                        0 <= idx < i && ((#[trigger] out@[j])@).name == self@[idx].name
                            && coll_persists_to(self@[idx], dtable@, out@[j]@),
                forall|idx: int|
                    0 <= idx < i ==> has_pcoll(
                        out@.map_values(|c: PersistedCollection| c@),
                        (#[trigger] self@[idx]).name,
                    ),
            decreases n - i,
        {
            let ghost outv = out@.map_values(|c: PersistedCollection| c@);
            proof {
                assert(self@[i as int] == self.collections@[i as int]@);
            }
            let pc = self.collections[i].to_persisted(dtable);
            let m = out.len();
            let mut pos: usize = 0;
            let mut scanning = true;
            while scanning && pos < m
                invariant
                    outv == out@.map_values(|c: PersistedCollection| c@),
                    m == out@.len(),
                    pos <= m,
                    forall|j: int| 0 <= j < pos ==> lex_le((#[trigger] outv[j]).name, pc@.name),
                    !scanning && pos < m ==> !lex_le(outv[pos as int].name, pc@.name),
                decreases m - pos, if scanning { 1int } else { 0int },
            {
                proof {
                    assert(outv[pos as int] == out@[pos as int]@);
                }
                if str_lex_le(out[pos].name(), pc.name()) {
                    pos = pos + 1;
                } else {
                    scanning = false;
                }
            }
            let ghost out_before = out@;
            out.insert(pos, pc);
            proof {
                let newv = out@.map_values(|c: PersistedCollection| c@);
                assert forall|j: int| 0 <= j < newv.len() implies newv[j] == (if j < pos {
                    outv[j]
                } else if j == pos {
                    pc@
                } else {
                    outv[j - 1]
                }) by {
                    assert(newv[j] == out@[j]@);
                }
                // the new list stays sorted
                assert forall|a: int, b: int| 0 <= a < b < newv.len() implies lex_le(
                    (#[trigger] newv[a]).name,
                    (#[trigger] newv[b]).name,
                ) by {
                    let pi = pos as int;
                    if b == pi {
                        assert(lex_le(outv[a].name, pc@.name));
                    } else if a == pi {
                        assert(pi < m);
                        assert(!lex_le(outv[pi].name, pc@.name));
                        lemma_lex_total(pc@.name, outv[pi].name);
                        if b - 1 > pi {
                            assert(lex_le(outv[pi].name, outv[b - 1].name));
                            lemma_lex_trans(pc@.name, outv[pi].name, outv[b - 1].name);
                        }
                    }
                }
                // names stay pairwise distinct: the new one belongs to an
                // entry whose name no processed entry shares
                assert forall|a: int, b: int| 0 <= a < b < newv.len() implies (
                #[trigger] newv[a]).name != (#[trigger] newv[b]).name by {
                    let pi = pos as int;
                    if a == pi || b == pi {
                        let o = if a == pi {
                            b - 1
                        } else {
                            a
                        };
                        assert(0 <= o < m);
                        assert(outv[o] == out_before[o]@);
                        let idx = choose|idx: int|
                            0 <= idx < i && ((#[trigger] out_before[o])@).name == self@[idx].name
                                && coll_persists_to(self@[idx], dtable@, out_before[o]@);
                        if outv[o].name == pc@.name {
                            assert(self@[idx].name == self@[i as int].name);
                            assert(false);
                        }
                    }
                }
                // every processed entry is still present
                assert forall|idx: int| 0 <= idx < i + 1 implies has_pcoll(
                    newv,
                    (#[trigger] self@[idx]).name,
                ) by {
                    if idx < i {
                        let w = choose|w: int|
                            0 <= w < outv.len() && (#[trigger] outv[w]).name == self@[idx].name;
                        if w < pos as int {
                            assert(newv[w].name == self@[idx].name);
                        } else {
                            assert(newv[w + 1].name == self@[idx].name);
                        }
                    } else {
                        assert(newv[pos as int].name == self@[idx].name);
                    }
                }
                // and still translates its entry
                assert forall|j: int| 0 <= j < newv.len() implies exists|idx: int|
                    0 <= idx < i + 1 && ((#[trigger] out@[j])@).name == self@[idx].name
                        && coll_persists_to(self@[idx], dtable@, out@[j]@) by {
                    let pi = pos as int;
                    assert(out@[j]@ == newv[j]);
                    if j == pi {
                        assert(newv[j].name == self@[i as int].name && coll_persists_to(
                            self@[i as int],
                            dtable@,
                            newv[j],
                        ));
                    } else {
                        let o = if j < pi {
                            j
                        } else {
                            j - 1
                        };
                        assert(newv[j] == outv[o]);
                        assert(outv[o] == out_before[o]@);
                        let idx = choose|idx: int|
                            0 <= idx < i && ((#[trigger] out_before[o])@).name == self@[idx].name
                                && coll_persists_to(self@[idx], dtable@, out_before[o]@);
                    }
                }
            }
            i = i + 1;
        }
        let r = PersistedManifest { collections: out };
        proof {
            let rv = r@;
            assert forall|j: int| 0 <= j < rv.len() implies persisted_matches(
                self@,
                dtable@,
                #[trigger] rv[j],
            ) by {
                assert(rv[j] == out@[j]@);
                let idx = choose|idx: int|
                    0 <= idx < i && ((#[trigger] out@[j])@).name == self@[idx].name
                        && coll_persists_to(self@[idx], dtable@, out@[j]@);
                lemma_coll_named_at(self@, idx);
            }
        }
        r
    }
}

/// The basename used by manifest files.
pub fn manifest_stem() -> (r: &'static str)
    ensures
        r@ == ".blobs.toml"@,
{
    ".blobs.toml"
}

/// `ups` parent-directory hops, as a relative path prefix.
pub open spec fn parent_hops(ups: nat) -> Seq<char>
    decreases ups,
{
    if ups == 0 {
        Seq::<char>::empty()
    } else {
        parent_hops((ups - 1) as nat) + "../"@
    }
}

/// The relative path probed after `ups` hops: the manifest basename under
/// that many parent directories.
pub open spec fn probe_path_spec(ups: nat) -> Seq<char> {
    parent_hops(ups) + ".blobs.toml"@
}

/// Whether a canonicalized directory path still holds a named component —
/// any character besides the separator. A path of separators alone is the
/// filesystem root.
pub open spec fn has_named_component(s: Seq<char>) -> bool {
    exists|i: int| 0 <= i < s.len() && s[i] != '/'
}

/// Whether this canonicalized directory path holds a named component.
pub fn path_has_named_component(s: &str) -> (r: bool)
    ensures
        r == has_named_component(s@),
{
    let n = s.unicode_len();
    let mut i: usize = 0;
    while i < n
        invariant
            n == s@.len(),
            i <= n,
            forall|j: int| 0 <= j < i ==> s@[j] == '/',
        decreases n - i,
    {
        if s.get_char(i) != '/' {
            return true;
        }
        i = i + 1;
    }
    false
}

/// What the search driver observed at the probed path.
pub enum DiscoveryEvent {
    /// The probed manifest file exists and can be read.
    ManifestPresent,
    /// No manifest file at the probed path. `canonical_parent` is the
    /// probed path's directory, canonicalized — or `None` where that
    /// directory is the empty relative path, which cannot be canonicalized
    /// and is never the filesystem root.
    ManifestAbsent { canonical_parent: Option<String> },
}

/// What the search does next.
pub enum DiscoveryAction {
    /// Try to open the manifest file at this relative path.
    Probe(String),
    /// A manifest file stands at this relative path: load it.
    LoadHere(String),
    /// The filesystem root was reached without a hit: the manifest is
    /// implicitly empty, and no file is created.
    FinishEmpty,
}

/// The upward search for the manifest document, as a state machine.
///
/// Starting in the working directory, the file is probed under a fixed
/// basename; on a miss the search moves to the parent directory and
/// retries, and stops empty-handed once the filesystem root is reached.
/// The driver around the library performs each probe and hands back what
/// it saw; every decision between probes is made here.
pub struct Discovery {
    ups: usize,
}

impl View for Discovery {
    type V = nat;

    closed spec fn view(&self) -> nat {
        self.ups as nat
    }
}

impl Discovery {
    /// Begin the search in the working directory, with the first path to
    /// probe.
    pub fn start() -> (r: (Discovery, String))
        ensures
            r.0@ == 0,
            r.1@ == probe_path_spec(0),
    {
        let d = Discovery { ups: 0 };
        let p = d.probe_path();
        (d, p)
    }

    /// How many parent directories the search has ascended.
    pub fn ascents(&self) -> (r: usize)
        ensures
            r as nat == self@,
    {
        self.ups
    }

    /// The relative path the search probes at this depth.
    pub fn probe_path(&self) -> (r: String)
        ensures
            r@ == probe_path_spec(self@),
    {
        let mut s = String::new();
        let mut i: usize = 0;
        while i < self.ups
            invariant
                i <= self.ups,
                s@ == parent_hops(i as nat),
            decreases self.ups - i,
        {
            s.append("../");
            i = i + 1;
        }
        s.append(".blobs.toml");
        s
    }

    /// Take the driver's observation and decide the next step.
    ///
    /// A present manifest is loaded where it was found. On a miss the
    /// search ascends and probes again, unless the canonicalized parent
    /// shows no named component — the filesystem root — in which case the
    /// search finishes with an implicitly empty manifest. A miss whose
    /// parent path was empty (the very first ascents) is never a root.
    pub fn on_event(&mut self, ev: DiscoveryEvent) -> (r: DiscoveryAction)
        ensures
            match ev {
                DiscoveryEvent::ManifestPresent => final(self)@ == old(self)@ && (
                r matches DiscoveryAction::LoadHere(p) && p@ == probe_path_spec(old(self)@)),
                DiscoveryEvent::ManifestAbsent { canonical_parent } => {
                    let at_root = match canonical_parent {
                        Some(s) => !has_named_component(s@),
                        None => false,
                    };
                    if at_root || old(self)@ == usize::MAX {
                        r == DiscoveryAction::FinishEmpty && final(self)@ == old(self)@
                    } else {
                        final(self)@ == old(self)@ + 1 && (r matches DiscoveryAction::Probe(p)
                            && p@ == probe_path_spec(final(self)@))
                    }
                },
            },
    {
        match ev {
            DiscoveryEvent::ManifestPresent => DiscoveryAction::LoadHere(self.probe_path()),
            DiscoveryEvent::ManifestAbsent { canonical_parent } => {
                let at_root = match &canonical_parent {
                    Some(s) => !path_has_named_component(s.as_str()),
                    None => false,
                };
                if at_root || self.ups == usize::MAX {
                    DiscoveryAction::FinishEmpty
                } else {
                    self.ups = self.ups + 1;
                    DiscoveryAction::Probe(self.probe_path())
                }
            },
        }
    }
}

/// Two manifests describe the same graph, each against its own table: the
/// same collection names, and under each position the same keys, strategy
/// and metadata, with items that agree in size, extra fields and digest.
pub open spec fn coll_equivalent(
    c1: CollectionV,
    t1: Seq<Seq<u8>>,
    c2: CollectionV,
    t2: Seq<Seq<u8>>,
) -> bool {
    &&& c2.name == c1.name
    &&& c2.keys == c1.keys
    &&& c2.retrieval == c1.retrieval
    &&& c2.metadata == c1.metadata
    &&& c2.items.len() == c1.items.len()
    &&& forall|k: int|
        0 <= k < c1.items.len() ==> {
            &&& (#[trigger] c2.items[k]).size == (#[trigger] c1.items[k]).size
            &&& c2.items[k].extra == c1.items[k].extra
            &&& 0 <= c1.items[k].id < t1.len()
            &&& 0 <= c2.items[k].id < t2.len()
            &&& t1[c1.items[k].id] == t2[c2.items[k].id]
        }
}

/// Persistence round-trip: a manifest saved against one table and loaded
/// back against any table — with any identifier numbering — reproduces an
/// equivalent graph: the same collection names, and under each name the
/// same keys, strategy, metadata, item sizes, item fields and item
/// digests.
pub proof fn lemma_persistence_round_trip(
    m: Seq<CollectionV>,
    t0: Seq<Seq<u8>>,
    p: Seq<PersistedCollectionV>,
    t1: Seq<Seq<u8>>,
    m2: Seq<CollectionV>,
)
    requires
        manifest_wf(m),
        pm_wf(p),
        manifest_persists_to(m, t0, p),
        manifest_revives_to(p, t1, m2),
    ensures
        forall|name: Seq<char>| #[trigger] has_coll(m, name) <==> has_coll(m2, name),
        manifest_wf(m2),
        forall|name: Seq<char>| #[trigger]
            has_coll(m, name) ==> coll_equivalent(
                coll_named(m, name),
                t0,
                coll_named(m2, name),
                t1,
            ),
{
    // positionally, the loaded manifest carries the persisted names
    assert forall|j: int| 0 <= j < m2.len() implies (#[trigger] m2[j]).name == p[j].name by {
        assert(coll_revives_to(p[j], t1, m2[j]));
    }
    assert forall|a: int, b: int| 0 <= a < b < m2.len() implies (#[trigger] m2[a]).name != (
    #[trigger] m2[b]).name by {
        assert(p[a].name != p[b].name);
    }
    assert forall|name: Seq<char>| #[trigger] has_coll(m, name) implies has_coll(m2, name) by {
        let i = choose|i: int| 0 <= i < m.len() && (#[trigger] m[i]).name == name;
        assert(has_pcoll(p, name));
        let j = choose|j: int| 0 <= j < p.len() && (#[trigger] p[j]).name == name;
        assert(m2[j].name == name);
    }
    assert forall|name: Seq<char>| #[trigger] has_coll(m2, name) implies has_coll(m, name) by {
        let j = choose|j: int| 0 <= j < m2.len() && (#[trigger] m2[j]).name == name;
        assert(persisted_matches(m, t0, p[j]));
        assert(p[j].name == name);
    }
    assert forall|name: Seq<char>| #[trigger] has_coll(m, name) implies coll_equivalent(
        coll_named(m, name),
        t0,
        coll_named(m2, name),
        t1,
    ) by {
        assert(has_coll(m2, name));
        let w = choose|k: int| 0 <= k < m2.len() && (#[trigger] m2[k]).name == name;
        let c2 = coll_named(m2, name);
        assert(c2 == m2[w]);
        assert(coll_revives_to(p[w], t1, m2[w]));
        assert(p[w].name == name);
        assert(persisted_matches(m, t0, p[w]));
        let c1 = coll_named(m, name);
        assert(coll_persists_to(c1, t0, p[w]));
        assert forall|k: int| 0 <= k < c1.items.len() implies {
            &&& (#[trigger] c2.items[k]).size == (#[trigger] c1.items[k]).size
            &&& c2.items[k].extra == c1.items[k].extra
            &&& 0 <= c1.items[k].id < t0.len()
            &&& 0 <= c2.items[k].id < t1.len()
            &&& t0[c1.items[k].id] == t1[c2.items[k].id]
        } by {
            assert(crate::collection::item_persists_to(c1.items[k], t0, p[w].items[k]));
            assert(crate::collection::item_revives_to(p[w].items[k], t1, c2.items[k]));
        }
    }
}

} // verus!
