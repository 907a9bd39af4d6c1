use vstd::prelude::*;

use crate::digest::{digest, digest_of};
use crate::error::ProofError;

verus! {

/// One stored blob, kept under the digest of its content.
pub struct Blob {
    pub digest: String,
    pub bytes: Vec<u8>,
}

/// The digest-to-content map that a sequence of blobs describes.
pub open spec fn blob_map(s: Seq<Blob>) -> Map<Seq<char>, Seq<u8>>
    decreases s.len(),
{
    if s.len() == 0 {
        Map::empty()
    } else {
        blob_map(s.drop_last()).insert(s.last().digest@, s.last().bytes@)
    }
}

/// No two blobs share a digest.
pub open spec fn digests_unique(s: Seq<Blob>) -> bool {
    forall|i: int, j: int|
        0 <= i < s.len() && 0 <= j < s.len() && i != j ==> s[i].digest@ != s[j].digest@
}

/// Every blob is filed under the digest of its own bytes.
pub open spec fn content_addressed(s: Seq<Blob>) -> bool {
    forall|i: int| 0 <= i < s.len() ==> s[i].digest@ == digest_of(#[trigger] s[i].bytes@)
}

proof fn lemma_blob_map(s: Seq<Blob>)
    requires
        digests_unique(s),
    ensures
        forall|k: Seq<char>|
            blob_map(s).contains_key(k) <==> exists|j: int| 0 <= j < s.len() && s[j].digest@ == k,
        forall|j: int| 0 <= j < s.len() ==> blob_map(s)[#[trigger] s[j].digest@] == s[j].bytes@,
    decreases s.len(),
{
    if s.len() > 0 {
        let t = s.drop_last();
        lemma_blob_map(t);
        assert forall|k: Seq<char>|
            blob_map(s).contains_key(k) <==> exists|j: int| 0 <= j < s.len() && s[j].digest@ == k by {
            if blob_map(s).contains_key(k) && k != s.last().digest@ {
                assert(blob_map(t).contains_key(k));
                let j = choose|j: int| 0 <= j < t.len() && t[j].digest@ == k;
                assert(s[j] == t[j]);
            }
            if exists|j: int| 0 <= j < s.len() && s[j].digest@ == k {
                let j = choose|j: int| 0 <= j < s.len() && s[j].digest@ == k;
                if j < t.len() {
                    assert(t[j] == s[j]);
                }
            }
        }
        assert forall|j: int| 0 <= j < s.len() implies blob_map(s)[#[trigger] s[j].digest@]
            == s[j].bytes@ by {
            if j < t.len() {
                assert(t[j] == s[j]);
                assert(s[j].digest@ != s.last().digest@);
            }
        }
    }
}

/// An owned copy of a byte slice.
pub fn copy_bytes(b: &[u8]) -> (r: Vec<u8>)
    ensures
        r@ == b@,
{
    let mut out: Vec<u8> = Vec::new();
    let mut i: usize = 0;
    while i < b.len()
        invariant
            i <= b@.len(),
            out@ == b@.subrange(0, i as int),
        decreases b@.len() - i,
    {
        out.push(b[i]);
        i = i + 1;
        assert(out@ =~= b@.subrange(0, i as int));
    }
    assert(out@ =~= b@);
    out
}

/// Blob storage keyed by content digest. Blobs are only ever added, never changed.
pub struct ContentAddressStore {
    entries: Vec<Blob>,
}

impl ContentAddressStore {
    /// The stored blobs, by digest.
    pub closed spec fn view(&self) -> Map<Seq<char>, Seq<u8>> {
        blob_map(self.entries@)
    }

    /// How many physical writes the store has performed: one per blob it holds.
    pub closed spec fn write_count(&self) -> nat {
        self.entries@.len()
    }

    pub closed spec fn wf(&self) -> bool {
        &&& digests_unique(self.entries@)
        &&& content_addressed(self.entries@)
    }

    /// An empty store.
    pub fn new() -> (r: Self)
        ensures
            r.wf(),
            r@ == Map::<Seq<char>, Seq<u8>>::empty(),
            r.write_count() == 0,
    {
        ContentAddressStore { entries: Vec::new() }
    }

    /// The number of physical writes performed so far.
    pub fn writes(&self) -> (r: usize)
        ensures
            r == self.write_count(),
    {
        self.entries.len()
    }

    fn find(&self, d: &String) -> (r: Option<usize>)
        requires
            self.wf(),
        ensures
            r is Some ==> r->0 < self.entries@.len() && self.entries@[r->0 as int].digest@ == d@,
            r is Some <==> self@.contains_key(d@),
    {
        proof {
            lemma_blob_map(self.entries@);
        }
        let mut i: usize = 0;
        while i < self.entries.len()
            invariant
                self.wf(),
                i <= self.entries@.len(),
                forall|j: int| 0 <= j < i ==> self.entries@[j].digest@ != d@,
            decreases self.entries@.len() - i,
        {
            if self.entries[i].digest == *d {
                proof {
                    lemma_blob_map(self.entries@);
                    assert(self.entries@[i as int].digest@ == d@);
                }
                return Some(i);
            }
            i = i + 1;
        }
        None
    }

    /// Whether a blob is stored under `d`.
    pub fn contains(&self, d: &String) -> (r: bool)
        requires
            self.wf(),
        ensures
            r == self@.contains_key(d@),
    {
        self.find(d).is_some()
    }

    /// Stores `bytes` under their digest unless a blob is already there, and returns
    /// the digest in either case.
    pub fn put(&mut self, bytes: &[u8]) -> (r: String)
        requires
            old(self).wf(),
        ensures
            final(self).wf(),
            r@ == digest_of(bytes@),
            final(self)@ == put_view(old(self)@, bytes@),
            final(self).write_count() == old(self).write_count() + put_writes(old(self)@, bytes@),
    {
        let d = digest(bytes);
        match self.find(&d) {
            Some(_) => d,
            None => {
                let ghost before = self.entries@;
                proof {
                    lemma_blob_map(before);
                }
                self.entries.push(Blob { digest: d.clone(), bytes: copy_bytes(bytes) });
                proof {
                    assert(self.entries@.drop_last() =~= before);
                    assert forall|i: int| 0 <= i < self.entries@.len() implies digest_of(
                        #[trigger] self.entries@[i].bytes@,
                    ) == self.entries@[i].digest@ by {
                        if i < before.len() {
                            assert(self.entries@[i] == before[i]);
                        }
                    }
                    assert forall|i: int, j: int|
                        0 <= i < self.entries@.len() && 0 <= j < self.entries@.len() && i
                            != j implies self.entries@[i].digest@ != self.entries@[j].digest@ by {
                        if i < before.len() {
                            assert(self.entries@[i] == before[i]);
                        }
                        if j < before.len() {
                            assert(self.entries@[j] == before[j]);
                        }
                    }
                }
                d
            },
        }
    }

    /// Every stored blob sits under its own digest.
    pub proof fn lemma_content_addressed(&self)
        requires
            self.wf(),
        ensures
            forall|k: Seq<char>| #[trigger] self@.contains_key(k) ==> digest_of(self@[k]) == k,
    {
        lemma_blob_map(self.entries@);
        assert forall|k: Seq<char>| #[trigger] self@.contains_key(k) implies digest_of(self@[k]) == k by {
            let j = choose|j: int| 0 <= j < self.entries@.len() && self.entries@[j].digest@ == k;
            assert(digest_of(self.entries@[j].bytes@) == self.entries@[j].digest@);
        }
    }

    /// Once `b` has been put, a blob is stored under its digest.
    pub proof fn lemma_put_present(&self, b: Seq<u8>)
        ensures
            put_view(self@, b).contains_key(digest_of(b)),
    {
    }

    /// Files `bytes` under their digest once the durable backend has reported on
    /// writing them. A blob that is already present needs no write. A failed write is
    /// `StorageFailure` and leaves the store as it was, so a partial write is never
    /// visible under the digest.
    pub fn commit(&mut self, bytes: &[u8], written: bool) -> (r: Result<String, ProofError>)
        requires
            old(self).wf(),
        ensures
            final(self).wf(),
            (old(self)@.contains_key(digest_of(bytes@)) || written) ==> r is Ok && r->Ok_0@
                == digest_of(bytes@) && final(self)@ == put_view(old(self)@, bytes@)
                && final(self).write_count() == old(self).write_count() + put_writes(
                old(self)@,
                bytes@,
            ),
            !(old(self)@.contains_key(digest_of(bytes@)) || written) ==> r
                == Err::<String, ProofError>(ProofError::StorageFailure) && final(self)@ == old(
                self,
            )@ && final(self).write_count() == old(self).write_count(),
    {
        let d = digest(bytes);
        if self.contains(&d) || written {
            Ok(self.put(bytes))
        } else {
            Err(ProofError::StorageFailure)
        }
    }

    /// The blob stored under `d`, or `NotFound`.
    pub fn get(&self, d: &String) -> (r: Result<Vec<u8>, ProofError>)
        requires
            self.wf(),
        ensures
            r is Ok <==> self@.contains_key(d@),
            r is Ok ==> r->Ok_0@ == self@[d@],
            r is Err ==> r->Err_0 == ProofError::NotFound,
    {
        match self.find(d) {
            Some(i) => {
                proof {
                    lemma_blob_map(self.entries@);
                }
                let b = self.entries[i].bytes.clone();
                assert(b@ =~= self.entries@[i as int].bytes@);
                Ok(b)
            },
            None => Err(ProofError::NotFound),
        }
    }
}

/// The store's contents after putting `b`: unchanged if its digest is already present.
pub open spec fn put_view(m: Map<Seq<char>, Seq<u8>>, b: Seq<u8>) -> Map<Seq<char>, Seq<u8>> {
    if m.contains_key(digest_of(b)) {
        m
    } else {
        m.insert(digest_of(b), b)
    }
}

/// The number of physical writes that putting `b` performs: zero or one.
pub open spec fn put_writes(m: Map<Seq<char>, Seq<u8>>, b: Seq<u8>) -> nat {
    if m.contains_key(digest_of(b)) {
        0
    } else {
        1
    }
}

/// Putting the same bytes twice returns the same digest both times, and the second
/// put neither writes nor changes the store.
pub proof fn lemma_put_idempotent(m: Map<Seq<char>, Seq<u8>>, b: Seq<u8>)
    ensures
        put_view(put_view(m, b), b) == put_view(m, b),
        put_writes(put_view(m, b), b) == 0,
        put_writes(m, b) + put_writes(put_view(m, b), b) <= 1,
{
}

/// Getting by the digest that a put returned gives back the bytes that were put,
/// unless a different blob with the same digest was stored before. In a well-formed store
/// every blob sits under its own digest (`lemma_content_addressed`), so the excluded case
/// is a SHA-256 collision between `b` and a stored blob.
pub proof fn lemma_round_trip(m: Map<Seq<char>, Seq<u8>>, b: Seq<u8>)
    requires
        m.contains_key(digest_of(b)) ==> m[digest_of(b)] == b,
    ensures
        put_view(m, b).contains_key(digest_of(b)),
        put_view(m, b)[digest_of(b)] == b,
{
}

} // verus!
