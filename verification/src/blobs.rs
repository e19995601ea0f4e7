//! Low-level management of blobs.

use vstd::prelude::*;

use crate::digest::DigestData;

verus! {

/// A blob identifier.
///
/// Each blob is uniquely defined by its contents. This blob identifier is a
/// unique reference to a blob valid during the execution of this program.
/// There is a one-to-one mapping between BlobIds and DigestData values,
/// accessible through a DigestTable. Unlike DigestData, BlobId is trivially
/// Copy-able.
#[derive(Clone, Copy, Debug, Eq, Hash, Ord, PartialEq, PartialOrd, Structural)]
pub struct BlobId(usize);

impl View for BlobId {
    type V = int;

    closed spec fn view(&self) -> int {
        self.0 as int
    }
}

impl BlobId {
    /// The identifier as a plain index.
    pub fn as_usize(&self) -> (r: usize)
        ensures
            r as int == self@,
    {
        self.0
    }
}

/// Two identifiers are the same value exactly when their indices agree.
pub proof fn lemma_blob_id_eq(a: BlobId, b: BlobId)
    ensures
        (a == b) <==> (a@ == b@),
{
}

/// No two entries of a table hold the same digest.
pub open spec fn table_wf(s: Seq<Seq<u8>>) -> bool {
    forall|i: int, j: int| 0 <= i < j < s.len() ==> #[trigger] s[i] != #[trigger] s[j]
}

/// A table mapping BlobIds to DigestData.
///
/// The table is append-only: it never forgets about a digest/BlobId pair
/// once it is learned, and an entry, once made, is never reassigned. Its
/// view is the sequence of digests in identifier order.
pub struct DigestTable {
    digests: Vec<DigestData>,
}

impl View for DigestTable {
    type V = Seq<Seq<u8>>;

    closed spec fn view(&self) -> Seq<Seq<u8>> {
        self.digests@.map_values(|d: DigestData| d@)
    }
}

impl DigestTable {
    /// One identifier per distinct digest, and no duplicates.
    pub open spec fn wf(&self) -> bool {
        table_wf(self@)
    }

    /// Create a new, empty DigestTable.
    pub fn new() -> (r: Self)
        ensures
            r@ == Seq::<Seq<u8>>::empty(),
            r.wf(),
    {
        let r = DigestTable { digests: Vec::new() };
        proof {
            assert(r@ =~= Seq::<Seq<u8>>::empty());
        }
        r
    }

    /// How many distinct digests the table has seen.
    pub fn len(&self) -> (r: usize)
        ensures
            r == self@.len(),
    {
        self.digests.len()
    }

    /// Given a BlobId, get its corresponding DigestData.
    ///
    /// This operation can never fail, because a BlobId can only be created
    /// by registering DigestData with the table.
    pub fn id_to_digest(&self, id: BlobId) -> (r: &DigestData)
        requires
            0 <= id@ < self@.len(),
        ensures
            r@ == self@[id@],
    {
        &self.digests[id.0]
    }

    /// Given DigestData, get a BlobId, possibly allocating a new one.
    ///
    /// A digest seen before maps to the identifier it was assigned then and
    /// the table stands unchanged; an unseen digest is recorded under the
    /// next sequential identifier. Entries are never removed or reassigned.
    pub fn digest_to_id(&mut self, digest: &DigestData) -> (r: BlobId)
        ensures
            0 <= r@ < final(self)@.len(),
            final(self)@[r@] == digest@,
            old(self)@.len() <= final(self)@.len(),
            forall|i: int| 0 <= i < old(self)@.len() ==> final(self)@[i] == old(self)@[i],
            old(self)@.contains(digest@) ==> final(self)@ == old(self)@,
            !old(self)@.contains(digest@) ==> final(self)@ =~= old(self)@.push(digest@) && r@
                == old(self)@.len(),
            old(self).wf() ==> final(self).wf(),
    {
        let n = self.digests.len();
        let mut i: usize = 0;
        while i < n
            invariant
                n == self@.len(),
                i <= n,
                forall|j: int| 0 <= j < i ==> self@[j] != digest@,
            decreases n - i,
        {
            if self.digests[i].eq_digest(digest) {
                return BlobId(i);
            }
            i = i + 1;
        }
        let ghost pre = self@;
        self.digests.push(digest.clone());
        proof {
            assert(self@ =~= pre.push(digest@));
            assert(!pre.contains(digest@));
            if table_wf(pre) {
                assert forall|a: int, b: int| 0 <= a < b < self@.len() implies #[trigger] self@[a]
                    != #[trigger] self@[b] by {
                    if b == self@.len() - 1 {
                        assert(self@[a] == pre[a] && pre.contains(pre[a]));
                    }
                }
            }
        }
        BlobId(n)
    }
}

/// Identifier lookup is one-to-one: a table that holds no digest twice maps
/// two identifiers to the same digest only where they are the same
/// identifier. Together with the contracts of `digest_to_id` and
/// `id_to_digest` this makes `digest_to_id` idempotent — repeated calls with
/// an equal digest return the same identifier — and makes `id_to_digest`
/// exactly invert it.
pub proof fn lemma_table_bijection(s: Seq<Seq<u8>>, i: int, j: int)
    requires
        table_wf(s),
        0 <= i < s.len(),
        0 <= j < s.len(),
        s[i] == s[j],
    ensures
        i == j,
{
}

} // verus!
