//! A framework for managing binary blobs of data.
//!
//! A blob is a byte stream identified solely by the SHA-256 digest of its
//! contents. The library ingests byte streams, deduplicates identical
//! content, and keeps a manifest of named collections of ingested items.
//! All decision logic is verified; the surrounding I/O (filesystem, HTTP,
//! TOML text) is driven by an unverified shell that calls into it.

pub mod blobs;
pub mod collection;
pub mod config;
pub mod digest;
pub mod errors;
pub mod manifest;
pub mod meta;
pub mod notify;
pub mod retrieval;
pub mod storage;
use vstd::prelude::*;
use vstd::string::StringExecFns;

use crate::blobs::{table_wf, BlobId, DigestTable};
use crate::collection::{coll_ids_within, Collection, CollectionV, ItemV};
use crate::config::{StorageInfo, StorageLocationV, UserConfig};
use crate::digest::DigestData;
use crate::errors::Error;
use crate::manifest::{
    coll_named, has_coll, manifest_ids_within, manifest_persists_to, manifest_wf, pm_wf,
    sorted_by_name, str_eq, Manifest, PersistedManifest, UpsertOutcome,
};
use crate::meta::MetaTable;
use crate::notify::NotificationBackend;

verus! {

/// Different ways that we can behave when ingesting a new blob, depending
/// on whether a blob of the same name or same contents already exists.
#[derive(Clone, Copy, Debug, Eq, PartialEq, Structural)]
pub enum IngestMode {
    /// Ingest the new blob fully. If there is an existing entry of the same
    /// name, update it to refer to the new contents.
    Update,
    /// If an entry of the same name already exists, don't bother ingesting
    /// the new blob, without even checking whether the candidate might have
    /// different contents. Otherwise, ingest it.
    TrustExisting,
}

impl IngestMode {
    /// Return the valid stringifications of the IngestMode type, to assist
    /// a command line in offering and parsing mode arguments.
    pub fn stringifications() -> (r: Vec<&'static str>)
        ensures
            r@.len() == 2,
            r@[0]@ == "update"@,
            r@[1]@ == "trust"@,
    {
        let mut v: Vec<&'static str> = Vec::new();
        v.push("update");
        v.push("trust");
        v
    }

    /// Parse a stringification back into the mode it names.
    pub fn parse(s: &str) -> (r: Result<IngestMode, Error>)
        ensures
            s@ == "update"@ ==> r == Ok::<IngestMode, Error>(IngestMode::Update),
            s@ == "trust"@ ==> r == Ok::<IngestMode, Error>(IngestMode::TrustExisting),
            s@ != "update"@ && s@ != "trust"@ ==> (r matches Err(e)
                && e matches Error::UnknownIngestMode(u) && u@ == s@),
    {
        proof {
            reveal_strlit("update");
            reveal_strlit("trust");
            assert("update"@.len() == 6 && "trust"@.len() == 5);
        }
        if str_eq(s, "update") {
            Ok(IngestMode::Update)
        } else if str_eq(s, "trust") {
            Ok(IngestMode::TrustExisting)
        } else {
            Err(Error::UnknownIngestMode(s.to_owned()))
        }
    }
}

/// The characters of a URL path after its last separator.
pub open spec fn last_segment(p: Seq<char>) -> Seq<char>
    decreases p.len(),
{
    if p.len() == 0 {
        Seq::<char>::empty()
    } else if p.last() == '/' {
        Seq::<char>::empty()
    } else {
        last_segment(p.drop_last()).push(p.last())
    }
}

/// The suffix after the last separator is the last segment.
proof fn lemma_last_segment_subrange(p: Seq<char>, start: int)
    requires
        0 <= start <= p.len(),
        forall|j: int| start <= j < p.len() ==> p[j] != '/',
        start > 0 ==> p[start - 1] == '/',
    ensures
        last_segment(p) =~= p.subrange(start, p.len() as int),
    decreases p.len(),
{
    if p.len() == 0 {
    } else if start == p.len() {
        assert(p.last() == '/');
    } else {
        assert(p.last() != '/');
        lemma_last_segment_subrange(p.drop_last(), start);
        assert(p.drop_last().subrange(start, p.len() - 1) =~= p.subrange(start, p.len() - 1));
        assert(last_segment(p) =~= p.subrange(start, p.len() - 1).push(p.last()));
        assert(p.subrange(start, p.len() - 1).push(p.last()) =~= p.subrange(
            start,
            p.len() as int,
        ));
    }
}

/// The file name a URL path suggests: what follows its last separator.
///
/// A path that ends in a separator, or an empty one, suggests none, and
/// that is an error: the caller must then name the blob itself.
pub fn file_name_from_url_path(path: &str) -> (r: Result<String, Error>)
    ensures
        last_segment(path@).len() > 0 ==> (r matches Ok(s) && s@ == last_segment(path@)),
        last_segment(path@).len() == 0 ==> (r matches Err(e) && e matches Error::NoFileName(u)
            && u@ == path@),
{
    let n = path.unicode_len();
    let mut start: usize = 0;
    let mut i: usize = 0;
    while i < n
        invariant
            n == path@.len(),
            i <= n,
            start <= i,
            forall|j: int| start <= j < i ==> path@[j] != '/',
            start > 0 ==> path@[start as int - 1] == '/',
        decreases n - i,
    {
        if path.get_char(i) == '/' {
            start = i + 1;
        }
        i = i + 1;
    }
    proof {
        lemma_last_segment_subrange(path@, start as int);
    }
    if start == n {
        return Err(Error::NoFileName(path.to_owned()));
    }
    let seg = path.substring_char(start, n);
    Ok(seg.to_owned())
}

/// The mathematical shape of a session.
#[verifier::ext_equal]
pub struct SessionV {
    /// The configured storage locations.
    pub config: Seq<StorageLocationV>,
    /// The manifest's collections.
    pub manifest: Seq<CollectionV>,
    /// Where the manifest document was found, if anywhere.
    pub manifest_path: Option<Seq<char>>,
    /// Whether the manifest has changed since it was loaded or last saved.
    pub manifest_modified: bool,
    /// The digest table: digests in identifier order.
    pub table: Seq<Seq<u8>>,
}

/// A session in which we do stuff.
///
/// It owns the configuration, the manifest found on disk, and the digest
/// table that maps this run's identifiers to digests. Everything the
/// session decides is verified; the shell around it performs the probing,
/// fetching and writing the decisions call for.
pub struct Session {
    config: UserConfig,
    manifest: Manifest,
    manifest_path: Option<String>,
    manifest_modified: bool,
    dtable: DigestTable,
}

impl View for Session {
    type V = SessionV;

    closed spec fn view(&self) -> SessionV {
        SessionV {
            config: self.config@,
            manifest: self.manifest@,
            manifest_path: match &self.manifest_path {
                Some(p) => Some(p@),
                None => None,
            },
            manifest_modified: self.manifest_modified,
            table: self.dtable@,
        }
    }
}

impl Session {
    /// The session's structures agree: the table is a bijection, the
    /// manifest's names are unique, and every identifier it holds was
    /// assigned by the table.
    pub open spec fn wf(&self) -> bool {
        &&& table_wf(self@.table)
        &&& manifest_wf(self@.manifest)
        &&& manifest_ids_within(self@.manifest, self@.table.len() as int)
    }

    /// Create and return a new Session around a loaded manifest: the
    /// configuration, what discovery found (the manifest and the path of
    /// its document, if one was found), and the digest table the load
    /// interned its digests into.
    pub fn new(
        config: UserConfig,
        manifest: Manifest,
        manifest_path: Option<String>,
        dtable: DigestTable,
    ) -> (r: Session)
        requires
            manifest.wf(),
            dtable.wf(),
            manifest_ids_within(manifest@, dtable@.len() as int),
        ensures
            r.wf(),
            r@.config == config@,
            r@.manifest == manifest@,
            r@.manifest_path == (match manifest_path {
                Some(p) => Some(p@),
                None => None::<Seq<char>>,
            }),
            r@.manifest_modified == false,
            r@.table == dtable@,
    {
        Session { config, manifest, manifest_path, manifest_modified: false, dtable }
    }

    /// Get a storage backend for this session: the first configured one.
    pub fn get_storage<B: NotificationBackend>(&self, nbe: &mut B) -> (r: Result<
        &StorageInfo,
        Error,
    >)
        ensures
            self@.config.len() == 0 ==> r == Err::<&StorageInfo, Error>(
                Error::NoStorageConfigured,
            ),
            self@.config.len() > 0 ==> (r matches Ok(si) && si@ == self@.config[0]),
    {
        self.config.get_storage(nbe)
    }

    /// The manifest as it stands.
    pub fn manifest(&self) -> (r: &Manifest)
        ensures
            r@ == self@.manifest,
            self.wf() ==> r.wf(),
    {
        &self.manifest
    }

    /// How many distinct digests this session has seen.
    pub fn table_len(&self) -> (r: usize)
        ensures
            r == self@.table.len(),
    {
        self.dtable.len()
    }

    /// Intern a digest: the identifier it already has, or a fresh one.
    pub fn digest_to_id(&mut self, digest: &DigestData) -> (r: BlobId)
        requires
            old(self).wf(),
        ensures
            final(self).wf(),
            0 <= r@ < final(self)@.table.len(),
            final(self)@.table[r@] == digest@,
            old(self)@.table.len() <= final(self)@.table.len(),
            forall|i: int|
                0 <= i < old(self)@.table.len() ==> final(self)@.table[i] == old(self)@.table[i],
            old(self)@.table.contains(digest@) ==> final(self)@ == old(self)@,
            !old(self)@.table.contains(digest@) ==> final(self)@ == (SessionV {
                table: old(self)@.table.push(digest@),
                ..old(self)@
            }) && r@ == old(self)@.table.len(),
    {
        let r = self.dtable.digest_to_id(digest);
        proof {
            assert forall|i: int|
                0 <= i < self@.manifest.len() implies coll_ids_within(
                #[trigger] self@.manifest[i],
                self@.table.len() as int,
            ) by {
                assert(coll_ids_within(old(self)@.manifest[i], old(self)@.table.len() as int));
            }
            if !old(self)@.table.contains(digest@) {
                assert(self@ =~= (SessionV {
                    table: old(self)@.table.push(digest@),
                    ..old(self)@
                }));
            }
        }
        r
    }

    /// The digest an identifier of this session stands for.
    pub fn id_to_digest(&self, id: BlobId) -> (r: &DigestData)
        requires
            0 <= id@ < self@.table.len(),
        ensures
            r@ == self@.table[id@],
    {
        self.dtable.id_to_digest(id)
    }

    /// Whether ingestion should be skipped: only in the trust-existing
    /// mode, and only where an entry of that name already exists — its
    /// contents are then not even examined.
    pub fn should_skip_ingest(&self, mode: IngestMode, name: &str) -> (r: bool)
        requires
            self.wf(),
        ensures
            r == (mode == IngestMode::TrustExisting && has_coll(self@.manifest, name@)),
    {
        match mode {
            IngestMode::TrustExisting => match self.manifest.lookup(name) {
                Some(_) => true,
                None => false,
            },
            IngestMode::Update => false,
        }
    }

    /// Insert a collection into the manifest, or update the entry of its
    /// name, and remember that the manifest changed.
    pub fn insert_collection<B: NotificationBackend>(
        &mut self,
        coll: Collection,
        nbe: &mut B,
    ) -> (r: UpsertOutcome)
        requires
            old(self).wf(),
            coll_ids_within(coll@, old(self)@.table.len() as int),
        ensures
            final(self).wf(),
            final(self)@.table == old(self)@.table,
            final(self)@.config == old(self)@.config,
            final(self)@.manifest_path == old(self)@.manifest_path,
            final(self)@.manifest_modified,
            !has_coll(old(self)@.manifest, coll@.name) ==> r == UpsertOutcome::Inserted
                && final(self)@.manifest == old(self)@.manifest.push(coll@),
            has_coll(old(self)@.manifest, coll@.name) && coll_named(
                old(self)@.manifest,
                coll@.name,
            ) == coll@ ==> r == UpsertOutcome::Unchanged && final(self)@.manifest == old(
                self,
            )@.manifest,
            has_coll(old(self)@.manifest, coll@.name) && coll_named(
                old(self)@.manifest,
                coll@.name,
            ) != coll@ ==> r == UpsertOutcome::Replaced && (exists|i: int|
                0 <= i < old(self)@.manifest.len() && (#[trigger] old(self)@.manifest[i]).name
                    == coll@.name && final(self)@.manifest == old(self)@.manifest.update(
                    i,
                    coll@,
                )),
    {
        let ghost cv = coll@;
        let r = self.manifest.insert_or_update(coll, nbe);
        self.manifest_modified = true;
        proof {
            let pre = old(self)@.manifest;
            let post = self@.manifest;
            let n = old(self)@.table.len() as int;
            assert forall|i: int| 0 <= i < post.len() implies coll_ids_within(
                #[trigger] post[i],
                n,
            ) by {
                if has_coll(pre, cv.name) && coll_named(pre, cv.name) != cv {
                    let w = choose|w: int|
                        0 <= w < pre.len() && (#[trigger] pre[w]).name == cv.name && post
                            == pre.update(w, cv);
                    if i != w {
                        assert(post[i] == pre[i]);
                    }
                } else if !has_coll(pre, cv.name) && i < post.len() - 1 {
                    assert(post[i] == pre[i]);
                }
            }
        }
        r
    }

    /// Append a freshly ingested item to the named collection and remember
    /// that the manifest changed; with no collection of that name, nothing
    /// changes and the unknown-name error comes back.
    pub fn record_item_in(&mut self, name: &str, id: BlobId, size: u64, extra: MetaTable) -> (r:
        Result<(), Error>)
        requires
            old(self).wf(),
            0 <= id@ < old(self)@.table.len(),
        ensures
            final(self).wf(),
            final(self)@.table == old(self)@.table,
            final(self)@.config == old(self)@.config,
            final(self)@.manifest_path == old(self)@.manifest_path,
            !has_coll(old(self)@.manifest, name@) ==> final(self)@.manifest == old(self)@.manifest
                && final(self)@.manifest_modified == old(self)@.manifest_modified && (
            r matches Err(e) && e matches Error::UnknownBlob(s) && s@ == name@),
            has_coll(old(self)@.manifest, name@) ==> r is Ok && final(self)@.manifest_modified && (
            exists|i: int|
                0 <= i < old(self)@.manifest.len() && (#[trigger] old(self)@.manifest[i]).name
                    == name@ && final(self)@.manifest == old(self)@.manifest.update(
                    i,
                    CollectionV {
                        items: old(self)@.manifest[i].items.push(
                            ItemV { id: id@, size, extra: extra@ },
                        ),
                        ..old(self)@.manifest[i]
                    },
                )),
    {
        let ghost ev = extra@;
        let r = self.manifest.record_item_in(name, id, size, extra);
        if r.is_ok() {
            self.manifest_modified = true;
        }
        proof {
            let pre = old(self)@.manifest;
            let post = self@.manifest;
            let n = old(self)@.table.len() as int;
            assert forall|i: int| 0 <= i < post.len() implies coll_ids_within(
                #[trigger] post[i],
                n,
            ) by {
                if has_coll(pre, name@) {
                    let w = choose|w: int|
                        0 <= w < pre.len() && (#[trigger] pre[w]).name == name@ && post
                            == pre.update(
                            w,
                            CollectionV {
                                items: pre[w].items.push(ItemV { id: id@, size, extra: ev }),
                                ..pre[w]
                            },
                        );
                    if i != w {
                        assert(post[i] == pre[i]);
                    } else {
                        let items = post[i].items;
                        assert forall|k: int| 0 <= k < items.len() implies 0 <= (
                        #[trigger] items[k]).id < n by {
                            if k < items.len() - 1 {
                                assert(items[k] == pre[w].items[k]);
                            }
                        }
                    }
                }
            }
        }
        r
    }

    /// Whether the manifest changed since it was loaded or last saved.
    pub fn manifest_modified(&self) -> (r: bool)
        ensures
            r == self@.manifest_modified,
    {
        self.manifest_modified
    }

    /// Where the manifest document should be written: the path it was found
    /// at, or the manifest basename in the working directory where none was
    /// found.
    pub fn save_path(&self) -> (r: String)
        ensures
            match self@.manifest_path {
                Some(p) => r@ == p,
                None => r@ == ".blobs.toml"@,
            },
    {
        match &self.manifest_path {
            Some(p) => p.clone(),
            None => ".blobs.toml".to_owned(),
        }
    }

    /// The manifest in its persisted form: digests for identifiers, sorted
    /// by collection name.
    pub fn to_persisted_manifest(&self) -> (r: PersistedManifest)
        requires
            self.wf(),
        ensures
            manifest_persists_to(self@.manifest, self@.table, r@),
            sorted_by_name(r@),
            pm_wf(r@),
    {
        self.manifest.to_persisted(&self.dtable)
    }

    /// Remember that the manifest document on disk now matches the
    /// in-memory manifest.
    pub fn mark_saved(&mut self)
        ensures
            final(self)@ == (SessionV { manifest_modified: false, ..old(self)@ }),
            old(self).wf() ==> final(self).wf(),
    {
        self.manifest_modified = false;
        proof {
            assert(final(self)@ =~= (SessionV { manifest_modified: false, ..old(self)@ }));
        }
    }
}

} // verus!
