//! The blob store: an immutable-once-written byte store addressed by
//! content hash. A blob lives under the key `blobs/<hash>`, writes are
//! skip-if-present, and a blob may disappear out of band (lifecycle
//! eviction), so removal is modelled but overwriting is not.

use crate::digest::{compute_sha256, sha256_hex_of};
use crate::mapping::view_opt;
use vstd::hash_map::StringHashMap;
use vstd::prelude::*;
use vstd::string::StringExecFns;

verus! {

/// One stored blob: its bytes and a best-effort content type.
pub struct Blob {
    pub bytes: Vec<u8>,
    pub content_type: Option<String>,
}

/// The mathematical value of a [`Blob`].
pub ghost struct BlobView {
    pub bytes: Seq<u8>,
    pub content_type: Option<Seq<char>>,
}

impl View for Blob {
    type V = BlobView;

    open spec fn view(&self) -> BlobView {
        BlobView { bytes: self.bytes@, content_type: view_opt(self.content_type) }
    }
}

/// The storage key a byte string is filed under: its SHA-256 digest in
/// lowercase hex, below the `blobs/` namespace.
pub open spec fn spec_blob_key(bytes: Seq<u8>) -> Seq<char> {
    "blobs/"@ + sha256_hex_of(bytes)
}

/// The blob map after an upload of `bytes`: unchanged when a blob already
/// sits under the content's key (the write is skipped), extended by the new
/// blob otherwise.
pub open spec fn spec_blobs_after_upload(
    blobs: Map<Seq<char>, BlobView>,
    bytes: Seq<u8>,
    content_type: Option<Seq<char>>,
) -> Map<Seq<char>, BlobView> {
    let h = spec_blob_key(bytes);
    if blobs.contains_key(h) {
        blobs
    } else {
        blobs.insert(h, BlobView { bytes, content_type })
    }
}

/// A content-addressed store of immutable blobs.
pub struct BlobStore {
    blobs: StringHashMap<Blob>,
}

impl BlobStore {
    /// The stored blobs, as a map from storage key to blob view.
    pub closed spec fn blobs(&self) -> Map<Seq<char>, BlobView> {
        self.blobs@.map_values(|b: Blob| b@)
    }

    /// Well-formedness: every blob sits under the key derived from its own
    /// bytes, so the bytes found under a key always hash back to it.
    pub open spec fn wf(&self) -> bool {
        forall|k: Seq<char>|
            #[trigger] self.blobs().contains_key(k) ==> k == spec_blob_key(
                self.blobs()[k].bytes,
            )
    }

    /// Creates an empty blob store.
    pub fn new() -> (r: BlobStore)
        ensures
            r.wf(),
            r.blobs() == Map::<Seq<char>, BlobView>::empty(),
    {
        BlobStore { blobs: StringHashMap::new() }
    }

    /// The number of blobs stored.
    pub fn len(&self) -> (r: usize)
        ensures
            r == self.blobs().len(),
    {
        proof {
            assert(self.blobs@.dom() =~= self.blobs().dom());
        }
        self.blobs.len()
    }

    /// Whether a blob is stored under `key`.
    pub fn has(&self, key: &str) -> (r: bool)
        ensures
            r == self.blobs().contains_key(key@),
    {
        self.blobs.contains_key(key)
    }

    /// The blob stored under `key`, if any.
    pub fn get<'a>(&'a self, key: &str) -> (r: Option<&'a Blob>)
        ensures
            match r {
                Some(b) => self.blobs().contains_key(key@) && b@ == self.blobs()[key@],
                None => !self.blobs().contains_key(key@),
            },
    {
        self.blobs.get(key)
    }

    /// Stores `bytes` under the key derived from their hash, unless a blob
    /// already sits there: identical content is written only once, and
    /// content once written is never overwritten. Returns the storage key
    /// and whether a write happened.
    pub fn put_if_absent(&mut self, bytes: Vec<u8>, content_type: Option<String>) -> (r: (
        String,
        bool,
    ))
        requires
            old(self).wf(),
        ensures
            final(self).wf(),
            r.0@ == spec_blob_key(bytes@),
            sha256_hex_of(bytes@).len() == 64,
            r.1 == !old(self).blobs().contains_key(spec_blob_key(bytes@)),
            final(self).blobs() == spec_blobs_after_upload(
                old(self).blobs(),
                bytes@,
                view_opt(content_type),
            ),
    {
        let hex = compute_sha256(bytes.as_slice());
        let key = String::from_str("blobs/").concat(hex.as_str());
        if self.blobs.contains_key(key.as_str()) {
            (key, false)
        } else {
            let stored = Blob { bytes, content_type };
            self.blobs.insert(key.clone(), stored);
            proof {
                assert(final(self).blobs() =~= old(self).blobs().insert(
                    spec_blob_key(bytes@),
                    BlobView { bytes: bytes@, content_type: view_opt(content_type) },
                ));
            }
            (key, true)
        }
    }

    /// Removes the blob under `key`, if any. This models the lifecycle
    /// eviction of the underlying bucket, which can happen out of band;
    /// the store itself never deletes blobs on behalf of a filename.
    pub fn remove(&mut self, key: &str)
        requires
            old(self).wf(),
        ensures
            final(self).wf(),
            final(self).blobs() == old(self).blobs().remove(key@),
    {
        self.blobs.remove(key);
        proof {
            assert(final(self).blobs() =~= old(self).blobs().remove(key@));
        }
    }
}

} // verus!
