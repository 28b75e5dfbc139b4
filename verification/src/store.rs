//! The content-addressed storage façade: the operation surface request
//! handlers call. An upload hashes the bytes, consults the rate limiter
//! (failing open when none is configured), writes the blob only if its
//! content is new, and records the filename mapping. A download resolves
//! the mapping, verifies the blob's integrity against the recorded hash,
//! and heals a dangling mapping whose blob has been evicted. A delete
//! removes only the mapping: the blob may be shared by other filenames and
//! is deliberately retained.

use crate::blob_store::{spec_blob_key, spec_blobs_after_upload, BlobStore, BlobView};
use crate::digest::{compute_sha256, sha256_hex_of};
use crate::mapping::{
    spec_prefix_matches, spec_put, view_opt, view_opt_ref, FileMapping, MappingStore, MappingView,
};
use crate::rate_limiter::{
    lemma_cleanup_preserves_check, spec_after_check, spec_after_cleanup, spec_check_allowed,
    spec_retry_ms, LimiterView, RateLimiter,
};
use crate::strutil::str_eq;
use vstd::prelude::*;
use vstd::slice::slice_to_vec;
use vstd::string::StrSliceExecFns;
use vstd::string::StringExecFns;

verus! {

/// What an upload reports back: the filename, the content's size and type,
/// the instant of the write, and the content hash.
#[derive(Debug)]
pub struct FileMetadata {
    pub key: String,
    pub size: usize,
    pub content_type: Option<String>,
    pub uploaded_at: u64,
    pub sha256: Option<String>,
}

/// Why a store operation failed.
#[derive(Debug)]
pub enum StoreError {
    /// The write was denied by the rate limiter; retry after this delay.
    RateLimited { retry_after_ms: u64 },
    /// Downloaded bytes did not hash to the recorded content hash. The
    /// store's own writes cannot produce this state — the check guards
    /// against corruption beneath the store — and under the store's
    /// invariant this variant is proved unreachable.
    Integrity { expected: String, actual: String },
}

/// An upload's outcome: its metadata, and whether the content changed.
/// `modified` is false when the filename already pointed at identical
/// content — the "not modified" answer.
#[derive(Debug)]
pub struct UploadOutcome {
    pub metadata: FileMetadata,
    pub modified: bool,
}

/// Whether an upload for `key` at instant `now` passes the rate limiter.
/// An absent limiter means the coordinator is unreachable or unconfigured:
/// the store fails open and allows the write.
pub open spec fn spec_upload_allowed(lv: Option<LimiterView>, key: Seq<char>, now: u64) -> bool {
    match lv {
        None => true,
        Some(l) => spec_check_allowed(l.history, key, now, l.window, l.max),
    }
}

/// The retry delay a denied upload reports.
pub open spec fn spec_upload_retry(lv: Option<LimiterView>, key: Seq<char>, now: u64) -> int {
    match lv {
        None => 0,
        Some(l) => spec_retry_ms(l.history, key, now, l.window),
    }
}

/// The limiter's state after an upload attempt: an opportunistic cleanup
/// pass, then the check itself (which records the write when allowed).
pub open spec fn spec_limiter_after_upload(
    lv: Option<LimiterView>,
    key: Seq<char>,
    now: u64,
) -> Option<LimiterView> {
    match lv {
        None => None,
        Some(l) => Some(
            LimiterView {
                history: spec_after_check(
                    spec_after_cleanup(l.history, now, l.window),
                    key,
                    now,
                    l.window,
                    l.max,
                ),
                max: l.max,
                window: l.window,
            },
        ),
    }
}

/// The content-addressed store: blobs keyed by content hash, a filename
/// index, and the write-rate limiter. One instance plays the part of both
/// coordination actors: every operation goes through `&mut self`, so all
/// callers observe one serial order.
pub struct Store {
    blobs: BlobStore,
    mappings: MappingStore,
    limiter: Option<RateLimiter>,
}

impl Store {
    /// The stored blobs, keyed by `blobs/<hash>`.
    pub closed spec fn blobs(&self) -> Map<Seq<char>, BlobView> {
        self.blobs.blobs()
    }

    /// The filename index.
    pub closed spec fn mappings(&self) -> Map<Seq<char>, MappingView> {
        self.mappings.mappings()
    }

    /// The rate limiter's state, or `None` when none is configured.
    pub closed spec fn limiter_view(&self) -> Option<LimiterView> {
        match self.limiter {
            Some(l) => Some(l.lview()),
            None => None,
        }
    }

    /// Well-formedness of the three components; in particular, every blob's
    /// bytes hash back to the key it is stored under.
    pub closed spec fn wf(&self) -> bool {
        &&& self.blobs.wf()
        &&& self.mappings.wf()
        &&& match self.limiter {
            Some(l) => l.wf(),
            None => true,
        }
    }

    /// Creates an empty store. With `limiter` absent the store fails open:
    /// every write is allowed.
    pub fn new(limiter: Option<RateLimiter>) -> (r: Store)
        requires
            match limiter {
                Some(l) => l.wf(),
                None => true,
            },
        ensures
            r.wf(),
            r.blobs() == Map::<Seq<char>, BlobView>::empty(),
            r.mappings() == Map::<Seq<char>, MappingView>::empty(),
            r.limiter_view() == match limiter {
                Some(l) => Some(l.lview()),
                None => None::<LimiterView>,
            },
    {
        Store { blobs: BlobStore::new(), mappings: MappingStore::new(), limiter }
    }

    /// The number of distinct blobs currently stored.
    pub fn blob_count(&self) -> (r: usize)
        ensures
            r == self.blobs().len(),
    {
        self.blobs.len()
    }

    /// Looks up the mapping recorded for a filename.
    pub fn get_mapping(&self, filename: &str) -> (r: Option<FileMapping>)
        requires
            self.wf(),
        ensures
            match r {
                Some(rec) => self.mappings().contains_key(filename@) && rec@ == self.mappings()[
                    filename@
                ],
                None => !self.mappings().contains_key(filename@),
            },
    {
        self.mappings.get(filename)
    }

    /// Stores `data` under `filename`.
    ///
    /// The bytes are hashed, the write is checked against the rate limiter
    /// under the filename as key (allowed outright when no limiter is
    /// configured), the blob is written only when its content is new, and
    /// the filename mapping is created or updated. The outcome reports the
    /// metadata and whether the content changed; `modified` is false when
    /// the filename already pointed at identical content.
    pub fn upload(
        &mut self,
        filename: &str,
        data: Vec<u8>,
        content_type: Option<&str>,
        now: u64,
    ) -> (r: Result<UploadOutcome, StoreError>)
        requires
            old(self).wf(),
            now <= u64::MAX - 2000,
        ensures
            final(self).wf(),
            final(self).limiter_view() == spec_limiter_after_upload(
                old(self).limiter_view(),
                filename@,
                now,
            ),
            r is Ok <==> spec_upload_allowed(old(self).limiter_view(), filename@, now),
            r matches Err(e) ==> {
                &&& e matches StoreError::RateLimited { retry_after_ms } && retry_after_ms as int
                    == spec_upload_retry(old(self).limiter_view(), filename@, now)
                    && retry_after_ms > 0
                &&& final(self).blobs() == old(self).blobs()
                &&& final(self).mappings() == old(self).mappings()
            },
            r matches Ok(out) ==> {
                let putr = spec_put(
                    old(self).mappings(),
                    filename@,
                    sha256_hex_of(data@),
                    data@.len() as int,
                    view_opt_ref(content_type),
                    now,
                );
                &&& final(self).blobs() == spec_blobs_after_upload(
                    old(self).blobs(),
                    data@,
                    view_opt_ref(content_type),
                )
                &&& final(self).mappings() == putr.0
                &&& out.modified == putr.2
                &&& out.metadata.key@ == filename@
                &&& out.metadata.size == data@.len()
                &&& view_opt(out.metadata.content_type) == view_opt_ref(content_type)
                &&& out.metadata.uploaded_at == now
                &&& view_opt(out.metadata.sha256) == Some(sha256_hex_of(data@))
            },
    {
        match &mut self.limiter {
            Some(l) => {
                let ghost h0 = l.history();
                l.cleanup_at(now);
                proof {
                    lemma_cleanup_preserves_check(
                        h0,
                        filename@,
                        now,
                        now,
                        l.window(),
                        l.max(),
                    );
                }
                match l.check_rate_limit_at(filename, now) {
                    Ok(()) => {},
                    Err(retry) => {
                        return Err(StoreError::RateLimited { retry_after_ms: retry });
                    },
                }
            },
            None => {},
        }
        let size = data.len();
        let ct_blob = match content_type {
            Some(s) => Some(s.to_owned()),
            None => None,
        };
        let ghost data_view = data@;
        let (blob_key, _wrote) = self.blobs.put_if_absent(data, ct_blob);
        let sha_hex = blob_key.as_str().substring_char(6, blob_key.as_str().unicode_len());
        proof {
            reveal_strlit("blobs/");
            assert(sha_hex@ =~= sha256_hex_of(data_view));
        }
        let ct_map = match content_type {
            Some(s) => Some(s.to_owned()),
            None => None,
        };
        let (_rec, changed) = self.mappings.put(
            filename,
            sha_hex.to_owned(),
            size,
            ct_map,
            now,
        );
        let ct_meta = match content_type {
            Some(s) => Some(s.to_owned()),
            None => None,
        };
        Ok(
            UploadOutcome {
                metadata: FileMetadata {
                    key: filename.to_owned(),
                    size,
                    content_type: ct_meta,
                    uploaded_at: now,
                    sha256: Some(sha_hex.to_owned()),
                },
                modified: changed,
            },
        )
    }

    /// Fetches the bytes stored under `filename`, with the recorded content
    /// hash and content type.
    ///
    /// An absent mapping reports `None`. When the mapping exists but its
    /// blob has been evicted out of band, the dangling mapping is deleted
    /// (self-heal) and `None` is reported, so the filename does not stay
    /// permanently broken. When the blob is present its bytes are re-hashed
    /// against the recorded hash before they are served; under the store's
    /// invariant that check always passes, so the result is never an error.
    pub fn download(&mut self, filename: &str) -> (r: Result<
        Option<(Vec<u8>, String, Option<String>)>,
        StoreError,
    >)
        requires
            old(self).wf(),
        ensures
            final(self).wf(),
            final(self).blobs() == old(self).blobs(),
            final(self).limiter_view() == old(self).limiter_view(),
            r is Ok,
            !old(self).mappings().contains_key(filename@) ==> {
                &&& r matches Ok(None)
                &&& final(self).mappings() == old(self).mappings()
            },
            old(self).mappings().contains_key(filename@) ==> {
                let rec = old(self).mappings()[filename@];
                let key = "blobs/"@ + rec.sha256;
                if old(self).blobs().contains_key(key) {
                    &&& final(self).mappings() == old(self).mappings()
                    &&& r matches Ok(Some((bytes, sha, ct))) && bytes@ == old(self).blobs()[
                        key
                    ].bytes && sha@ == rec.sha256 && view_opt(ct) == rec.content_type
                        && sha256_hex_of(bytes@) == rec.sha256
                } else {
                    &&& final(self).mappings() == old(self).mappings().remove(filename@)
                    &&& r matches Ok(None)
                }
            },
    {
        let rec = match self.mappings.get(filename) {
            None => {
                return Ok(None);
            },
            Some(rec) => rec,
        };
        let blob_key = String::from_str("blobs/").concat(rec.sha256.as_str());
        let found = match self.blobs.get(blob_key.as_str()) {
            Some(blob) => {
                let bytes = slice_to_vec(blob.bytes.as_slice());
                proof {
                    reveal_strlit("blobs/");
                    let stored = old(self).blobs()[blob_key@].bytes;
                    assert(blob_key@ == spec_blob_key(stored));
                    assert(("blobs/"@ + sha256_hex_of(stored)).skip(6) =~= sha256_hex_of(
                        stored,
                    ));
                    assert(("blobs/"@ + rec.sha256@).skip(6) =~= rec.sha256@);
                    assert(sha256_hex_of(bytes@) == rec.sha256@);
                }
                let actual = compute_sha256(bytes.as_slice());
                if !str_eq(actual.as_str(), rec.sha256.as_str()) {
                    return Err(StoreError::Integrity { expected: rec.sha256, actual });
                }
                Some((bytes, rec.sha256, rec.content_type))
            },
            None => None,
        };
        match found {
            Some(t) => Ok(Some(t)),
            None => {
                self.mappings.delete(filename);
                Ok(None)
            },
        }
    }

    /// Deletes the mapping for `filename`. The blob is deliberately kept:
    /// other filenames may reference the same content, and no reference
    /// counts are maintained. Deleting an absent filename is not an error.
    pub fn delete(&mut self, filename: &str)
        requires
            old(self).wf(),
        ensures
            final(self).wf(),
            final(self).blobs() == old(self).blobs(),
            final(self).limiter_view() == old(self).limiter_view(),
            final(self).mappings() == old(self).mappings().remove(filename@),
    {
        self.mappings.delete(filename);
    }

    /// Removes the blob stored under `key`, as the underlying bucket's
    /// lifecycle eviction would, without touching the filename index. This
    /// is what creates the dangling mappings that `download` self-heals.
    pub fn remove_blob(&mut self, key: &str)
        requires
            old(self).wf(),
        ensures
            final(self).wf(),
            final(self).blobs() == old(self).blobs().remove(key@),
            final(self).mappings() == old(self).mappings(),
            final(self).limiter_view() == old(self).limiter_view(),
    {
        self.blobs.remove(key);
    }

    /// Lists the filenames that currently hold a mapping, optionally only
    /// those starting with `prefix`. The order is unspecified.
    #[verifier::loop_isolation(false)]
    pub fn list(&self, prefix: Option<&str>) -> (r: Vec<String>)
        requires
            self.wf(),
        ensures
            forall|i: int|
                0 <= i < r@.len() ==> self.mappings().contains_key((#[trigger] r@[i])@)
                    && spec_prefix_matches(r@[i]@, view_opt_ref(prefix)),
            forall|k: Seq<char>|
                #[trigger] self.mappings().contains_key(k) && spec_prefix_matches(
                    k,
                    view_opt_ref(prefix),
                ) ==> exists|i: int| 0 <= i < r@.len() && r@[i]@ == k,
            forall|i: int, j: int| 0 <= i < j < r@.len() ==> r@[i]@ != r@[j]@,
    {
        let recs = self.mappings.list(prefix);
        let mut names: Vec<String> = Vec::new();
        let n = recs.len();
        for i in 0..n
            invariant
                names@.len() == i,
                forall|j: int| 0 <= j < i ==> (#[trigger] names@[j])@ == recs@[j]@.filename,
        {
            let rec: &FileMapping = &recs[i];
            names.push(rec.filename.clone());
        }
        proof {
            assert forall|k: Seq<char>|
                #[trigger] self.mappings().contains_key(k) && spec_prefix_matches(
                    k,
                    view_opt_ref(prefix),
                ) implies exists|i: int| 0 <= i < names@.len() && names@[i]@ == k by {
                let i = choose|i: int| 0 <= i < recs@.len() && recs@[i]@.filename == k;
                assert(names@[i]@ == k);
            }
        }
        names
    }
}

/// Identical bytes are stored once. After any upload of `data`, a blob
/// sits under the content's key, so a further upload of the same bytes —
/// under any filename — leaves the blob store exactly as it was: no second
/// blob write happens. Both uploads record the same content hash in their
/// mappings, whatever filenames they use.
pub proof fn lemma_upload_dedup(
    blobs0: Map<Seq<char>, BlobView>,
    mappings1: Map<Seq<char>, MappingView>,
    mappings2: Map<Seq<char>, MappingView>,
    data: Seq<u8>,
    ct1: Option<Seq<char>>,
    ct2: Option<Seq<char>>,
    f1: Seq<char>,
    f2: Seq<char>,
    now1: u64,
    now2: u64,
)
    ensures
        spec_blobs_after_upload(spec_blobs_after_upload(blobs0, data, ct1), data, ct2)
            == spec_blobs_after_upload(blobs0, data, ct1),
        spec_put(
            mappings1,
            f1,
            sha256_hex_of(data),
            data.len() as int,
            ct1,
            now1,
        ).1.sha256 == spec_put(
            mappings2,
            f2,
            sha256_hex_of(data),
            data.len() as int,
            ct2,
            now2,
        ).1.sha256,
{
}

/// Integrity round-trip: after an upload of `data` under `f` on a
/// well-formed blob store, the mapping for `f` exists, its blob is
/// present, and the bytes found there hash to the recorded content hash —
/// which is the hash of `data`. Together with `download`'s contract, a
/// download right after an upload returns bytes with the uploaded
/// content's hash.
pub proof fn lemma_upload_download_roundtrip(
    blobs0: Map<Seq<char>, BlobView>,
    mappings0: Map<Seq<char>, MappingView>,
    data: Seq<u8>,
    ct: Option<Seq<char>>,
    f: Seq<char>,
    now: u64,
)
    requires
        forall|k: Seq<char>|
            #[trigger] blobs0.contains_key(k) ==> k == spec_blob_key(blobs0[k].bytes),
    ensures
        ({
            let b1 = spec_blobs_after_upload(blobs0, data, ct);
            let m1 = spec_put(
                mappings0,
                f,
                sha256_hex_of(data),
                data.len() as int,
                ct,
                now,
            ).0;
            &&& m1.contains_key(f)
            &&& m1[f].sha256 == sha256_hex_of(data)
            &&& b1.contains_key("blobs/"@ + m1[f].sha256)
            &&& sha256_hex_of(b1["blobs/"@ + m1[f].sha256].bytes) == m1[f].sha256
        }),
{
    let h = spec_blob_key(data);
    let b1 = spec_blobs_after_upload(blobs0, data, ct);
    assert(b1.contains_key(h));
    if blobs0.contains_key(h) {
        assert(h == spec_blob_key(blobs0[h].bytes));
        assert(("blobs/"@ + sha256_hex_of(data)).skip(6) =~= sha256_hex_of(data)) by {
            reveal_strlit("blobs/");
        }
        assert(("blobs/"@ + sha256_hex_of(blobs0[h].bytes)).skip(6) =~= sha256_hex_of(
            blobs0[h].bytes,
        )) by {
            reveal_strlit("blobs/");
        }
        assert(sha256_hex_of(b1[h].bytes) == sha256_hex_of(data));
    }
}

/// Self-heal: once `download` has deleted a dangling mapping, a lookup of
/// the same filename finds nothing.
pub proof fn lemma_self_heal(mappings0: Map<Seq<char>, MappingView>, f: Seq<char>)
    ensures
        !mappings0.remove(f).contains_key(f),
{
}

/// Not-modified: writing a mapping whose content hash equals what the
/// filename already holds reports "not modified", preserves the record's
/// creation time, and only advances its update time. (A write that the
/// rate limiter denies never reaches the mapping; this speaks of the
/// writes that go through.)
pub proof fn lemma_reupload_not_modified(
    mappings0: Map<Seq<char>, MappingView>,
    f: Seq<char>,
    sha: Seq<char>,
    size: int,
    ct: Option<Seq<char>>,
    now: u64,
)
    requires
        mappings0.contains_key(f),
        mappings0[f].sha256 == sha,
    ensures
        !spec_put(mappings0, f, sha, size, ct, now).2,
        spec_put(mappings0, f, sha, size, ct, now).1.created_at == mappings0[f].created_at,
        spec_put(mappings0, f, sha, size, ct, now).0[f].created_at == mappings0[f].created_at,
        spec_put(mappings0, f, sha, size, ct, now).1.updated_at == now,
{
}

} // verus!
