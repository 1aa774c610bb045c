//! Content-addressed blob store: every blob is kept under the lowercase hex
//! SHA-256 digest of its bytes.
use vstd::prelude::*;
use vstd::slice::slice_to_vec;

use crate::types::Chunk;

verus! {

/// The SHA-256 digest of a byte sequence.
pub uninterp spec fn sha256_of(data: Seq<u8>) -> Seq<u8>;

/// Lowercase hexadecimal digits, indexed by value.
pub open spec fn hex_table() -> Seq<char> {
    seq!['0', '1', '2', '3', '4', '5', '6', '7', '8', '9', 'a', 'b', 'c', 'd', 'e', 'f']
}

/// Two lowercase hex digits per byte, high nibble first.
pub open spec fn hex_of(b: Seq<u8>) -> Seq<char>
    decreases b.len(),
{
    if b.len() == 0 {
        seq![]
    } else {
        hex_of(b.drop_last()) + seq![
            hex_table()[(b.last() / 16) as int],
            hex_table()[(b.last() % 16) as int],
        ]
    }
}

/// The name a blob is stored under.
pub open spec fn digest_text(data: Seq<u8>) -> Seq<char> {
    hex_of(sha256_of(data))
}

/// Relies on sha2::Sha256 through `Digest::digest`: the 32-byte SHA-256
/// digest of the input.
#[verifier::external_body]
fn sha256(data: &[u8]) -> (r: Vec<u8>)
    ensures
        r@ == sha256_of(data@),
        r@.len() == 32,
{
    <sha2::Sha256 as sha2::Digest>::digest(data).to_vec()
}

/// Relies on hex::encode: two lowercase hex digits per byte, high nibble first.
#[verifier::external_body]
fn hex_encode(bytes: &[u8]) -> (r: String)
    ensures
        r@ == hex_of(bytes@),
{
    hex::encode(bytes)
}

/// The hex SHA-256 digest of `data`, the name it is stored under.
pub fn content_hash(data: &[u8]) -> (r: String)
    ensures
        r@ == digest_text(data@),
        r@.len() == 64,
{
    let d = sha256(data);
    let r = hex_encode(d.as_slice());
    proof { lemma_hex_len(d@); }
    r
}

/// Whether a blob must be written into a directory, given whether a file
/// named by its digest is there already: content is never written twice.
pub fn write_needed(present: bool) -> (r: bool)
    ensures
        r == !present,
{
    !present
}

/// Hex text is twice as long as the bytes it encodes.
pub proof fn lemma_hex_len(b: Seq<u8>)
    ensures
        hex_of(b).len() == 2 * b.len(),
    decreases b.len(),
{
    if b.len() > 0 {
        lemma_hex_len(b.drop_last());
    }
}


/// Every blob of `m` is stored under its own digest.
pub open spec fn content_addressed(m: Map<Seq<char>, Seq<u8>>) -> bool {
    forall|k: Seq<char>| #[trigger] m.contains_key(k) ==> digest_text(m[k]) == k
}

/// The contents after storing `b` into `m`: `b` is added under its digest,
/// unless something is stored there already, in which case nothing changes.
pub open spec fn stored_after(m: Map<Seq<char>, Seq<u8>>, b: Seq<u8>) -> Map<Seq<char>, Seq<u8>> {
    if m.contains_key(digest_text(b)) {
        m
    } else {
        m.insert(digest_text(b), b)
    }
}

/// Storing a payload and then looking up its digest gives that payload back,
/// provided no other payload with the same digest was stored before.
pub proof fn lemma_store_then_retrieve(m: Map<Seq<char>, Seq<u8>>, b: Seq<u8>)
    requires
        m.contains_key(digest_text(b)) ==> m[digest_text(b)] == b,
    ensures
        stored_after(m, b).contains_key(digest_text(b)),
        stored_after(m, b)[digest_text(b)] == b,
{
}

/// Storing the same payload a second time changes nothing: the second store
/// writes no content.
pub proof fn lemma_store_twice(m: Map<Seq<char>, Seq<u8>>, b: Seq<u8>)
    ensures
        stored_after(m, b).contains_key(digest_text(b)),
        stored_after(stored_after(m, b), b) == stored_after(m, b),
{
}

/// Storing keeps every blob under its own digest.
pub proof fn lemma_store_keeps_addressing(m: Map<Seq<char>, Seq<u8>>, b: Seq<u8>)
    requires
        content_addressed(m),
    ensures
        content_addressed(stored_after(m, b)),
{
}

/// A content-addressed store of blobs, rooted at a directory name.
pub struct Storage {
    root_dir: String,
    blobs: Vec<Chunk>,
}

impl View for Storage {
    type V = Map<Seq<char>, Seq<u8>>;

    /// The blobs, by digest.
    closed spec fn view(&self) -> Map<Seq<char>, Seq<u8>> {
        Map::new(
            |k: Seq<char>| exists|i: int| 0 <= i < self.blobs@.len() && self.blobs@[i].hash@ == k,
            |k: Seq<char>|
                self.blobs@[choose|i: int|
                    0 <= i < self.blobs@.len() && self.blobs@[i].hash@ == k].data@,
        )
    }
}

impl Storage {
    /// Each chunk sits under its own digest, and no digest twice.
    pub closed spec fn inv(&self) -> bool {
        &&& forall|i: int|
            0 <= i < self.blobs@.len() ==> #[trigger] self.blobs@[i].hash@ == digest_text(
                self.blobs@[i].data@,
            )
        &&& forall|i: int, j: int|
            0 <= i < self.blobs@.len() && 0 <= j < self.blobs@.len() && i != j
                ==> #[trigger] self.blobs@[i].hash@ != #[trigger] self.blobs@[j].hash@
    }

    pub open spec fn wf(&self) -> bool {
        self.inv() && content_addressed(self@)
    }

    /// The directory name the store was opened with.
    pub closed spec fn root_spec(&self) -> Seq<char> {
        self.root_dir@
    }

    proof fn lemma_view_at(&self, i: int)
        requires
            self.inv(),
            0 <= i < self.blobs@.len(),
        ensures
            self@.contains_key(self.blobs@[i].hash@),
            self@[self.blobs@[i].hash@] == self.blobs@[i].data@,
    {
        let k = self.blobs@[i].hash@;
        assert(exists|j: int| 0 <= j < self.blobs@.len() && self.blobs@[j].hash@ == k);
        let j = choose|j: int| 0 <= j < self.blobs@.len() && self.blobs@[j].hash@ == k;
        assert(i == j);
    }

    proof fn lemma_inv_wf(&self)
        requires
            self.inv(),
        ensures
            self.wf(),
    {
        assert forall|k: Seq<char>| #[trigger] self@.contains_key(k) implies digest_text(self@[k])
            == k by {
            let j = choose|j: int| 0 <= j < self.blobs@.len() && self.blobs@[j].hash@ == k;
            self.lemma_view_at(j);
        }
    }

    /// An empty store rooted at `root_dir`.
    pub fn new(root_dir: String) -> (r: Storage)
        ensures
            r.wf(),
            r@ == Map::<Seq<char>, Seq<u8>>::empty(),
            r.root_spec() == root_dir@,
    {
        let r = Storage { root_dir, blobs: Vec::new() };
        proof { r.lemma_inv_wf(); }
        assert(r@ =~= Map::<Seq<char>, Seq<u8>>::empty());
        r
    }

    /// The directory name the store was opened with.
    pub fn root_dir(&self) -> (r: &String)
        ensures
            r@ == self.root_spec(),
    {
        &self.root_dir
    }

    fn position(&self, hash: &String) -> (r: Option<usize>)
        requires
            self.inv(),
        ensures
            match r {
                Some(i) => i < self.blobs@.len() && self.blobs@[i as int].hash@ == hash@,
                None => !self@.contains_key(hash@),
            },
    {
        let n = self.blobs.len();
        let mut i: usize = 0;
        while i < n
            invariant
                n == self.blobs@.len(),
                i <= n,
                forall|j: int| 0 <= j < i ==> self.blobs@[j].hash@ != hash@,
            decreases n - i,
        {
            if self.blobs[i].hash == *hash {
                return Some(i);
            }
            i = i + 1;
        }
        None
    }

    /// Whether a blob is stored under `hash`.
    pub fn contains(&self, hash: &str) -> (r: bool)
        requires
            self.wf(),
        ensures
            r == self@.contains_key(hash@),
    {
        let h = hash.to_owned();
        match self.position(&h) {
            Some(i) => {
                proof { self.lemma_view_at(i as int); }
                true
            },
            None => false,
        }
    }

    /// Stores `data` under its digest and returns the digest. Content already
    /// present is never written again.
    pub fn store(&mut self, data: &[u8]) -> (r: String)
        requires
            old(self).wf(),
        ensures
            final(self).wf(),
            r@ == digest_text(data@),
            final(self)@ == stored_after(old(self)@, data@),
            final(self).root_spec() == old(self).root_spec(),
    {
        let hash = content_hash(data);
        match self.position(&hash) {
            Some(i) => {
                proof { self.lemma_view_at(i as int); }
            },
            None => {
                let ghost old_blobs = self.blobs@;
                let ghost old_view = self@;
                let copy = slice_to_vec(data);
                let h2 = hash.clone();
                self.blobs.push(Chunk { data: copy, hash: h2 });
                assert(self.blobs@[old_blobs.len() as int].hash@ == hash@);
                assert(forall|j: int| 0 <= j < old_blobs.len() ==> self.blobs@[j] == old_blobs[j]);
                proof {
                    let new_view = old_view.insert(hash@, data@);
                    assert forall|k: Seq<char>| #[trigger] self@.contains_key(k) <==> new_view.contains_key(k) by {
                        if new_view.contains_key(k) && k != hash@ {
                            let j = choose|j: int| 0 <= j < old_blobs.len() && old_blobs[j].hash@ == k;
                            assert(self.blobs@[j].hash@ == k);
                        }
                    }
                    assert forall|k: Seq<char>| #[trigger] self@.contains_key(k) implies self@[k] == new_view[k] by {
                        let j = choose|j: int| 0 <= j < self.blobs@.len() && self.blobs@[j].hash@ == k;
                        self.lemma_view_at(j);
                        if k != hash@ {
                            assert(j < old_blobs.len());
                            let ghost_old = choose|m: int| 0 <= m < old_blobs.len() && old_blobs[m].hash@ == k;
                            assert(self.blobs@[ghost_old].hash@ == k);
                            self.lemma_view_at(ghost_old);
                        }
                    }
                    assert(self@ =~= new_view);
                    self.lemma_inv_wf();
                }
            },
        }
        hash
    }

    /// The blob stored under `hash`, or `None` when there is none.
    pub fn retrieve(&self, hash: &str) -> (r: Option<Vec<u8>>)
        requires
            self.wf(),
        ensures
            match r {
                Some(v) => self@.contains_key(hash@) && v@ == self@[hash@],
                None => !self@.contains_key(hash@),
            },
    {
        let h = hash.to_owned();
        match self.position(&h) {
            Some(i) => {
                proof { self.lemma_view_at(i as int); }
                Some(self.blobs[i].data.clone())
            },
            None => None,
        }
    }
}

} // verus!
