//! Storing blobs: content-addressed layout and the ingestion protocol.
//!
//! A committed blob lives under a two-level path derived from its digest: a
//! subdirectory named by the first byte's hex value, then a file named by
//! the remaining bytes' hex value. Ingestion streams chunks through a
//! running hash and size count; the surrounding driver writes the same
//! chunks to a uniquely named staging file and, once the digest is known,
//! atomically renames it to the canonical path and marks it read-only. Any
//! failure before the rename leaves at most a discardable staging artifact,
//! never a partial canonical file.

use vstd::prelude::*;
use vstd::string::StringExecFns;

use crate::digest::{
    absorbed, byte_hex, bytes_of_hex, hex_of, lemma_bytes_of_hex_of, lemma_hex_of_len,
    sha256_of, DigestComputer, DigestData,
};
use crate::errors::Error;

verus! {

/// The canonical path of a blob below the storage prefix: first byte's hex
/// as a directory, remaining bytes' hex as the file name.
pub open spec fn two_part_rel_path(digest: Seq<u8>) -> Seq<char> {
    byte_hex(digest[0]) + seq!['/'] + hex_of(digest.skip(1))
}

/// The full canonical path of a blob under a storage prefix.
pub open spec fn blob_path_spec(prefix: Seq<char>, digest: Seq<u8>) -> Seq<char> {
    prefix + seq!['/'] + two_part_rel_path(digest)
}

/// One in-flight ingestion: counts and hashes the chunks of one byte stream
/// strictly in arrival order, with no look-ahead buffering.
pub struct Ingestor {
    dc: DigestComputer,
    size: u64,
}

impl Ingestor {
    /// The bytes of the stream seen so far, in order.
    pub closed spec fn bytes(&self) -> Seq<u8> {
        absorbed(self.dc)
    }

    /// The running size count agrees with the bytes seen.
    pub closed spec fn wf(&self) -> bool {
        self.size == self.bytes().len()
    }

    /// Start ingesting a new byte stream.
    pub fn new() -> (r: Ingestor)
        ensures
            r.bytes() == Seq::<u8>::empty(),
            r.wf(),
    {
        Ingestor { dc: DigestComputer::new(), size: 0 }
    }

    /// Feed the next chunk of the stream.
    ///
    /// Fails only where the stream has grown past what a 64-bit size can
    /// count, and then leaves the ingestion untouched.
    pub fn push_chunk(&mut self, chunk: &[u8]) -> (r: Result<(), Error>)
        requires
            old(self).wf(),
        ensures
            final(self).wf(),
            r is Ok <==> old(self).bytes().len() + chunk@.len() <= u64::MAX,
            r is Ok ==> final(self).bytes() == old(self).bytes() + chunk@,
            r is Err ==> final(self).bytes() == old(self).bytes() && r == Err::<(), Error>(
                Error::SizeOverflow,
            ),
    {
        let len = chunk.len() as u64;
        if self.size > u64::MAX - len {
            return Err(Error::SizeOverflow);
        }
        self.size = self.size + len;
        self.dc.update(chunk);
        Ok(())
    }

    /// Finalize the stream: its total size in bytes and the SHA-256 digest
    /// of its whole content.
    pub fn finish(self) -> (r: (u64, DigestData))
        requires
            self.wf(),
        ensures
            r.0 == self.bytes().len(),
            r.1@ == sha256_of(self.bytes()),
    {
        let Ingestor { dc, size } = self;
        (size, DigestData::from_computer(dc))
    }
}

/// A storage backend that arranges files on the filesystem.
///
/// The verified part computes every path of the layout; the unverified
/// driver around the library performs the filesystem work at those paths.
#[derive(Debug)]
pub struct FilesystemStorage {
    prefix: String,
}

impl View for FilesystemStorage {
    type V = Seq<char>;

    closed spec fn view(&self) -> Seq<char> {
        self.prefix@
    }
}

impl FilesystemStorage {
    /// Create and return a new FilesystemStorage object rooted at `prefix`.
    pub fn new(prefix: &str) -> (r: Self)
        ensures
            r@ == prefix@,
    {
        FilesystemStorage { prefix: prefix.to_owned() }
    }

    /// The storage root.
    pub fn prefix(&self) -> (r: &str)
        ensures
            r@ == self@,
    {
        self.prefix.as_str()
    }

    /// The directory that holds the blob with this digest: the hex value of
    /// the digest's first byte, below the prefix.
    pub fn blob_dir(&self, digest: &DigestData) -> (r: String)
        ensures
            r@ == self@ + seq!['/'] + byte_hex(digest@[0]),
    {
        let mut s = self.prefix.clone();
        s.append("/");
        let dir = digest.dir_name();
        s.append(dir.as_str());
        proof {
            reveal_strlit("/");
            assert(s@ =~= self@ + seq!['/'] + byte_hex(digest@[0]));
        }
        s
    }

    /// The canonical two-level path of the blob with this digest. A pure
    /// function of the digest: no two distinct digests share it.
    pub fn blob_path(&self, digest: &DigestData) -> (r: String)
        ensures
            r@ == blob_path_spec(self@, digest@),
    {
        let mut s = self.blob_dir(digest);
        s.append("/");
        let name = digest.file_name();
        s.append(name.as_str());
        proof {
            reveal_strlit("/");
            assert(s@ =~= blob_path_spec(self@, digest@));
        }
        s
    }

    /// The naming template for one ingestion's staging file, inside the
    /// storage root so the final rename stays within one filesystem. The
    /// driver replaces the placeholder suffix with a fresh unique one.
    pub fn staging_template(&self) -> (r: String)
        ensures
            r@ == self@ + "/staging.XXXXXXXX"@,
    {
        let mut s = self.prefix.clone();
        s.append("/staging.XXXXXXXX");
        s
    }
}

/// Ingesting a payload a second time commits the same digest to the same
/// canonical path: content addressing is deterministic, so the repeat
/// ingest rewrites the file with identical content rather than duplicating
/// it.
pub proof fn lemma_ingest_deterministic(prefix: Seq<char>, b1: Seq<u8>, b2: Seq<u8>)
    requires
        b1 == b2,
    ensures
        sha256_of(b1) == sha256_of(b2),
        blob_path_spec(prefix, sha256_of(b1)) == blob_path_spec(prefix, sha256_of(b2)),
{
}

/// The canonical path determines the digest: two digests of full length
/// that share a storage path are equal, so blobs of different content never
/// collide on a destination.
pub proof fn lemma_blob_path_injective(prefix: Seq<char>, d1: Seq<u8>, d2: Seq<u8>)
    requires
        d1.len() == 32,
        d2.len() == 32,
        blob_path_spec(prefix, d1) == blob_path_spec(prefix, d2),
    ensures
        d1 =~= d2,
{
    let p1 = blob_path_spec(prefix, d1);
    let p2 = blob_path_spec(prefix, d2);
    let n = prefix.len() as int;
    lemma_hex_of_len(d1.skip(1));
    lemma_hex_of_len(d2.skip(1));
    assert(byte_hex(d1[0]) =~= byte_hex(d2[0])) by {
        assert(p1[n + 1] == p2[n + 1] && p1[n + 2] == p2[n + 2]);
    }
    assert(hex_of(d1.skip(1)) =~= hex_of(d2.skip(1))) by {
        assert forall|k: int| 0 <= k < 62 implies hex_of(d1.skip(1))[k] == hex_of(
            d2.skip(1),
        )[k] by {
            assert(p1[n + 4 + k] == p2[n + 4 + k]);
        }
    }
    assert(hex_of(seq![d1[0]]) =~= hex_of(seq![d2[0]])) by {
        assert(seq![d1[0]].drop_first() =~= Seq::<u8>::empty());
        assert(seq![d2[0]].drop_first() =~= Seq::<u8>::empty());
    }
    lemma_bytes_of_hex_of(seq![d1[0]]);
    lemma_bytes_of_hex_of(seq![d2[0]]);
    assert(d1[0] == d2[0]) by {
        assert(bytes_of_hex(hex_of(seq![d1[0]])) =~= bytes_of_hex(hex_of(seq![d2[0]])));
    }
    lemma_bytes_of_hex_of(d1.skip(1));
    lemma_bytes_of_hex_of(d2.skip(1));
    assert(d1.skip(1) =~= d2.skip(1));
    assert forall|i: int| 0 <= i < 32 implies d1[i] == d2[i] by {
        if i > 0 {
            assert(d1.skip(1)[i - 1] == d2.skip(1)[i - 1]);
        }
    }
}

} // verus!
