//! Content-addressed in-memory store: each entry is keyed by the SHA-256
//! digest of its bytes, rendered as lowercase hex.

use vstd::prelude::*;
use sha2::Digest;

verus! {

/// The lowercase-hex SHA-256 digest of a byte sequence. The digest is a
/// pure function of the bytes; its value is not spelled out here, only
/// named, and all contracts speak of it through this name.
pub uninterp spec fn sha256_hex_of(data: Seq<u8>) -> Seq<char>;

/// Relies on sha2::Sha256 through the Digest trait: the digest depends on
/// the input bytes alone, and `{:x}` renders its 32 bytes as 64 lowercase
/// hex digits.
#[verifier::external_body]
pub(crate) fn sha256_hex(data: &[u8]) -> (r: String)
    ensures
        r@ == sha256_hex_of(data@),
        r@.len() == 64,
{
    let mut hasher = sha2::Sha256::new();
    hasher.update(data);
    format!("{:x}", hasher.finalize())
}

/// One stored file: content-addressed key, display name, raw bytes.
#[derive(Debug)]
pub struct StoredFile {
    pub file_hash: String,
    pub file_name: String,
    pub data: Vec<u8>,
}

impl StoredFile {
    /// The content-addressing invariant: the key is the digest of the bytes.
    pub open spec fn wf(self) -> bool {
        self.file_hash@ == sha256_hex_of(self.data@)
    }
}

/// In-memory content store; at most one entry per hash.
#[derive(Debug)]
pub struct ContentStore {
    pub files: Vec<StoredFile>,
}

/// The store after writing `(h, name, data)`: an existing entry for `h`
/// is replaced in place, a new one is appended at the end, and every
/// other entry stays put.
pub open spec fn spec_upserted(
    pre: ContentStore,
    post: ContentStore,
    h: Seq<char>,
    name: Seq<char>,
    data: Seq<u8>,
) -> bool {
    let n = pre.files@.len() as int;
    if pre.spec_contains_hash(h) {
        let i = pre.spec_index_of(h);
        &&& post.files@.len() == n
        &&& (forall|j: int| 0 <= j < n && j != i ==> post.files@[j] == pre.files@[j])
        &&& post.files@[i].file_hash@ == h
        &&& post.files@[i].file_name@ == name
        &&& post.files@[i].data@ == data
    } else {
        &&& post.files@.len() == n + 1
        &&& post.files@.take(n) == pre.files@
        &&& post.files@[n].file_hash@ == h
        &&& post.files@[n].file_name@ == name
        &&& post.files@[n].data@ == data
    }
}

impl ContentStore {
    /// Every entry is content-addressed and no two entries share a hash.
    pub open spec fn wf(self) -> bool {
        &&& (forall|i: int| 0 <= i < self.files@.len() ==> (#[trigger] self.files@[i]).wf())
        &&& (forall|i: int, j: int|
            0 <= i < j < self.files@.len()
                ==> (#[trigger] self.files@[i]).file_hash@ != (#[trigger] self.files@[j]).file_hash@)
    }

    pub open spec fn spec_contains_hash(self, h: Seq<char>) -> bool {
        exists|i: int| 0 <= i < self.files@.len() && (#[trigger] self.files@[i]).file_hash@ == h
    }

    /// Index of the entry with hash `h`, when one exists.
    pub open spec fn spec_index_of(self, h: Seq<char>) -> int {
        choose|i: int| 0 <= i < self.files@.len() && (#[trigger] self.files@[i]).file_hash@ == h
    }

    pub fn new() -> (s: Self)
        ensures
            s.wf(),
            s.files@ == Seq::<StoredFile>::empty(),
    {
        ContentStore { files: Vec::new() }
    }

    fn find_index(&self, file_hash: &String) -> (r: Option<usize>)
        ensures
            match r {
                Some(i) => i < self.files@.len()
                    && self.files@[i as int].file_hash@ == file_hash@,
                None => !self.spec_contains_hash(file_hash@),
            },
    {
        let mut i: usize = 0;
        while i < self.files.len()
            invariant
                i <= self.files@.len(),
                forall|j: int| 0 <= j < i ==> (#[trigger] self.files@[j]).file_hash@ != file_hash@,
            decreases self.files@.len() - i,
        {
            if self.files[i].file_hash == *file_hash {
                return Some(i);
            }
            i = i + 1;
        }
        None
    }

    /// Whether the store holds an entry for this hash.
    pub fn contains_hash(&self, file_hash: &String) -> (r: bool)
        ensures
            r == self.spec_contains_hash(file_hash@),
    {
        self.find_index(file_hash).is_some()
    }

    /// Upsert an entry whose key is already known to be the digest of its
    /// bytes; the write keeps the store content-addressed.
    pub(crate) fn insert_hashed(&mut self, file_hash: String, file_name: String, data: Vec<u8>)
        requires
            old(self).wf(),
            file_hash@ == sha256_hex_of(data@),
        ensures
            final(self).wf(),
            final(self).spec_contains_hash(file_hash@),
            spec_upserted(*old(self), *final(self), file_hash@, file_name@, data@),
    {
        let ghost h = file_hash@;
        let entry = StoredFile { file_hash, file_name, data };
        let probe = entry.file_hash.clone();
        match self.find_index(&probe) {
            Some(i) => {
                self.files[i] = entry;
                proof {
                    assert(self.files@[i as int].file_hash@ == h);
                    let k = old(self).spec_index_of(h);
                    assert(old(self).files@[k].file_hash@ == h);
                    assert(k == i as int);
                }
            },
            None => {
                self.files.push(entry);
                proof {
                    assert(self.files@.take(old(self).files@.len() as int)
                        =~= old(self).files@);
                    assert(self.files@[old(self).files@.len() as int].file_hash@ == h);
                }
            },
        }
    }

    /// Hash the bytes and upsert them under the resulting key, enforcing
    /// the content-addressing invariant at write time.
    pub fn store_bytes(&mut self, file_name: String, data: Vec<u8>) -> (hash: String)
        requires
            old(self).wf(),
        ensures
            final(self).wf(),
            hash@ == sha256_hex_of(data@),
            final(self).spec_contains_hash(hash@),
            spec_upserted(*old(self), *final(self), hash@, file_name@, data@),
    {
        let hash = sha256_hex(data.as_slice());
        self.insert_hashed(hash.clone(), file_name, data);
        hash
    }

    /// Look a hash up and hand back a copy of the entry's name and bytes;
    /// `None` exactly when the hash is absent.
    pub fn get_file(&self, file_hash: &String) -> (r: Option<(String, Vec<u8>)>)
        requires
            self.wf(),
        ensures
            r is Some <==> self.spec_contains_hash(file_hash@),
            match r {
                Some(entry) => ({
                    let i = self.spec_index_of(file_hash@);
                    &&& entry.0@ == self.files@[i].file_name@
                    &&& entry.1@ == self.files@[i].data@
                }),
                None => true,
            },
    {
        match self.find_index(file_hash) {
            Some(i) => {
                let name = self.files[i].file_name.clone();
                let data = copy_bytes(&self.files[i].data);
                proof {
                    let k = self.spec_index_of(file_hash@);
                    assert(self.files@[k].file_hash@ == file_hash@);
                    assert(k == i as int);
                }
                Some((name, data))
            },
            None => None,
        }
    }

    /// The `(hash, name)` directory of the store, in storage order.
    pub fn list_files(&self) -> (r: Vec<(String, String)>)
        ensures
            r@.len() == self.files@.len(),
            forall|i: int|
                0 <= i < r@.len()
                    ==> (#[trigger] r@[i]).0@ == self.files@[i].file_hash@
                        && r@[i].1@ == self.files@[i].file_name@,
    {
        let mut r: Vec<(String, String)> = Vec::new();
        let mut i: usize = 0;
        while i < self.files.len()
            invariant
                i <= self.files@.len(),
                r@.len() == i,
                forall|j: int|
                    0 <= j < i
                        ==> (#[trigger] r@[j]).0@ == self.files@[j].file_hash@
                            && r@[j].1@ == self.files@[j].file_name@,
            decreases self.files@.len() - i,
        {
            r.push((self.files[i].file_hash.clone(), self.files[i].file_name.clone()));
            i = i + 1;
        }
        r
    }

    /// Number of stored entries.
    pub fn len(&self) -> (n: usize)
        ensures
            n == self.files@.len(),
    {
        self.files.len()
    }
}

/// Byte-for-byte copy of a byte vector.
pub fn copy_bytes(v: &Vec<u8>) -> (r: Vec<u8>)
    ensures
        r@ == v@,
{
    let r = v.clone();
    proof {
        assert(r@ =~= v@);
    }
    r
}

} // verus!
