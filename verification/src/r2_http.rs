//! The HTTP surface of the file store: dispatches a request on
//! `/files/{key}` to upload, download, delete or list, and shapes the
//! reply — including the `Content-Digest` header, which carries the
//! SHA-256 digest base64-encoded.

use crate::digest::sha256_hex_of;
use crate::hexcodec::{
    hex_to_bytes, lemma_hex_decode_len, lemma_hex_roundtrip, lemma_spec_hex_len,
    spec_hex_decode, spec_is_hex,
};
use crate::mapping::{spec_prefix_matches, spec_put, view_opt, view_opt_ref};
use crate::rate_actor::{rate_limit_response, RateLimitHttp};
use crate::routes::HttpMethod;
use crate::store::{
    spec_limiter_after_upload, spec_upload_allowed, spec_upload_retry, FileMetadata, Store,
    StoreError, UploadOutcome,
};
use base64::Engine;
use vstd::pervasive::unreached;
use vstd::prelude::*;
use vstd::string::StringExecFns;

verus! {

/// The base64 rendering (standard alphabet, padded) of a byte string.
pub uninterp spec fn base64_of(bytes: Seq<u8>) -> Seq<char>;

/// Relies on base64's `STANDARD` engine: the encoding is a function of the
/// input bytes alone. The length bound keeps the engine's buffer-size
/// computation from overflowing.
#[verifier::external_body]
fn base64_encode(bytes: &[u8]) -> (r: String)
    requires
        bytes@.len() <= usize::MAX / 2,
    ensures
        r@ == base64_of(bytes@),
{
    base64::engine::general_purpose::STANDARD.encode(bytes)
}

/// The value of the `Content-Digest` header for a content hash given in
/// hex: the digest's bytes base64-encoded between `sha-256=:` and `:`.
pub open spec fn spec_content_digest(sha_hex: Seq<char>) -> Seq<char> {
    "sha-256=:"@ + base64_of(spec_hex_decode(sha_hex)) + ":"@
}

/// Builds the `Content-Digest` header value for a content hash in hex;
/// `None` when the string is not hexadecimal.
pub fn content_digest_value(sha_hex: &str) -> (r: Option<String>)
    requires
        sha_hex@.len() % 2 == 0,
    ensures
        r is Some <==> spec_is_hex(sha_hex@),
        r matches Some(v) ==> v@ == spec_content_digest(sha_hex@),
{
    let n = sha_hex.unicode_len();
    let raw = match hex_to_bytes(sha_hex) {
        None => {
            return None;
        },
        Some(raw) => raw,
    };
    proof {
        lemma_hex_decode_len(sha_hex@);
        assert(raw@.len() == n / 2);
    }
    let b64 = base64_encode(raw.as_slice());
    let mut out = String::from_str("sha-256=:");
    out.append(b64.as_str());
    out.append(":");
    Some(out)
}

/// What a listing must satisfy against the filename index: every returned
/// name is mapped, and every mapped name is returned.
pub open spec fn spec_listing_ok(
    files: Seq<String>,
    m: Map<Seq<char>, crate::mapping::MappingView>,
) -> bool {
    &&& (forall|i: int| 0 <= i < files.len() ==> m.contains_key((#[trigger] files[i])@))
    &&& (forall|k: Seq<char>|
        #[trigger] m.contains_key(k) ==> exists|i: int| 0 <= i < files.len() && files[i]@ == k)
}

/// What the file surface answers.
pub enum R2Reply {
    /// 200: the file's bytes, content type, and digest header value.
    File { bytes: Vec<u8>, content_type: String, content_digest: String },
    /// 200: the headers of a HEAD request, without the body.
    FileHead { content_length: usize, content_type: String, content_digest: String },
    /// 200, or 304 when the content did not change: an upload's metadata.
    Uploaded { metadata: FileMetadata, not_modified: bool },
    /// 200: the filenames currently stored.
    Listing(Vec<String>),
    /// 200: the file's mapping was deleted.
    Deleted,
    /// 404: no such file.
    NotFound,
    /// 405: a method the surface does not serve here.
    MethodNotAllowed,
    /// 429: the write rate for this key is exhausted.
    RateLimited(RateLimitHttp),
}

impl R2Reply {
    /// The HTTP status the reply is sent with.
    pub fn status(&self) -> (s: u16)
        ensures
            s == match self {
                R2Reply::File { .. } => 200,
                R2Reply::FileHead { .. } => 200,
                R2Reply::Uploaded { not_modified, .. } => if *not_modified {
                    304int
                } else {
                    200int
                },
                R2Reply::Listing(_) => 200,
                R2Reply::Deleted => 200,
                R2Reply::NotFound => 404,
                R2Reply::MethodNotAllowed => 405,
                R2Reply::RateLimited(_) => 429,
            },
    {
        match self {
            R2Reply::File { .. } => 200,
            R2Reply::FileHead { .. } => 200,
            R2Reply::Uploaded { not_modified, .. } => if *not_modified {
                304
            } else {
                200
            },
            R2Reply::Listing(_) => 200,
            R2Reply::Deleted => 200,
            R2Reply::NotFound => 404,
            R2Reply::MethodNotAllowed => 405,
            R2Reply::RateLimited(_) => 429,
        }
    }
}

/// The content type a download is served with: the recorded one, or the
/// octet-stream default.
pub open spec fn spec_served_type(ct: Option<Seq<char>>) -> Seq<char> {
    match ct {
        Some(c) => c,
        None => "application/octet-stream"@,
    }
}

/// Resolves a downloaded file's served content type.
fn served_type(ct: Option<String>) -> (r: String)
    ensures
        r@ == spec_served_type(view_opt(ct)),
{
    match ct {
        Some(c) => c,
        None => String::from_str("application/octet-stream"),
    }
}

/// Handles one request on the file surface at instant `now`.
///
/// `key` is the path below `/files/`; `body` and `content_type` carry the
/// request's payload for uploads. A GET with an empty key lists the stored
/// filenames; a GET with a key downloads (healing a dangling mapping to a
/// missing blob into a 404); a PUT or POST uploads, answering 304 when the
/// content did not change and 429 when the key's write rate is exhausted;
/// a DELETE removes the mapping; a HEAD answers the download's headers
/// only, and is refused for the empty key.
pub fn handle_r2_request(
    store: &mut Store,
    method: HttpMethod,
    key: &str,
    body: Vec<u8>,
    content_type: Option<&str>,
    now: u64,
) -> (r: R2Reply)
    requires
        old(store).wf(),
        now <= u64::MAX - 2000,
    ensures
        final(store).wf(),
        method == HttpMethod::Get || method == HttpMethod::Head || method == HttpMethod::Delete
            ==> final(store).blobs() == old(store).blobs() && final(store).limiter_view() == old(
            store,
        ).limiter_view(),
        method == HttpMethod::Get && key@.len() == 0 ==> {
            &&& final(store).mappings() == old(store).mappings()
            &&& r matches R2Reply::Listing(files) && spec_listing_ok(
                files@,
                old(store).mappings(),
            )
        },
        (method == HttpMethod::Get || method == HttpMethod::Head) && key@.len() > 0 ==> {
            if !old(store).mappings().contains_key(key@) {
                &&& final(store).mappings() == old(store).mappings()
                &&& r is NotFound
            } else {
                let rec = old(store).mappings()[key@];
                if old(store).blobs().contains_key("blobs/"@ + rec.sha256) {
                    let blob = old(store).blobs()["blobs/"@ + rec.sha256];
                    &&& final(store).mappings() == old(store).mappings()
                    &&& method == HttpMethod::Get ==> (r matches R2Reply::File {
                        bytes,
                        content_type,
                        content_digest,
                    } && bytes@ == blob.bytes && content_type@ == spec_served_type(
                        rec.content_type,
                    ) && content_digest@ == spec_content_digest(rec.sha256))
                    &&& method == HttpMethod::Head ==> (r matches R2Reply::FileHead {
                        content_length,
                        content_type,
                        content_digest,
                    } && content_length == blob.bytes.len() && content_type@ == spec_served_type(
                        rec.content_type,
                    ) && content_digest@ == spec_content_digest(rec.sha256))
                } else {
                    &&& final(store).mappings() == old(store).mappings().remove(key@)
                    &&& r is NotFound
                }
            }
        },
        method == HttpMethod::Head && key@.len() == 0 ==> {
            &&& final(store).mappings() == old(store).mappings()
            &&& r is MethodNotAllowed
        },
        method == HttpMethod::Put || method == HttpMethod::Post ==> {
            &&& final(store).limiter_view() == spec_limiter_after_upload(
                old(store).limiter_view(),
                key@,
                now,
            )
            &&& if spec_upload_allowed(old(store).limiter_view(), key@, now) {
                let putr = spec_put(
                    old(store).mappings(),
                    key@,
                    sha256_hex_of(body@),
                    body@.len() as int,
                    view_opt_ref(content_type),
                    now,
                );
                &&& final(store).blobs() == crate::blob_store::spec_blobs_after_upload(
                    old(store).blobs(),
                    body@,
                    view_opt_ref(content_type),
                )
                &&& final(store).mappings() == putr.0
                &&& r matches R2Reply::Uploaded { metadata, not_modified } && not_modified
                    == !putr.2 && metadata.key@ == key@ && metadata.size == body@.len()
                    && view_opt(metadata.sha256) == Some(sha256_hex_of(body@))
                    && view_opt(metadata.content_type) == view_opt_ref(content_type)
                    && metadata.uploaded_at == now
            } else {
                &&& final(store).blobs() == old(store).blobs()
                &&& final(store).mappings() == old(store).mappings()
                &&& r matches R2Reply::RateLimited(h) && h.status == 429 && exists|retry: u64|
                    retry as int == spec_upload_retry(old(store).limiter_view(), key@, now)
                        && h.retry_after@ == crate::decfmt::spec_retry_secs(retry) && h.reset
                        == now / 1000 + retry / 1000
            }
        },
        method == HttpMethod::Delete ==> {
            &&& final(store).mappings() == old(store).mappings().remove(key@)
            &&& r is Deleted
        },
    {
        match method {
            HttpMethod::Get => {
                if key.is_empty() {
                    let files = store.list(None);
                    proof {
                        assert forall|k: Seq<char>| #[trigger]
                            old(store).mappings().contains_key(k) implies exists|i: int|
                            0 <= i < files@.len() && files@[i]@ == k by {
                            assert(spec_prefix_matches(k, view_opt_ref(None::<&str>)));
                        }
                    }
                    proof {
                        assert(spec_listing_ok(files@, old(store).mappings()));
                    }
                    R2Reply::Listing(files)
                } else {
                    match store.download(key) {
                        Ok(Some((bytes, sha, ct))) => {
                            proof {
                                lemma_spec_hex_len(crate::digest::sha256_of(bytes@));
                                lemma_hex_roundtrip(crate::digest::sha256_of(bytes@));
                            }
                            let digest = match content_digest_value(sha.as_str()) {
                                Some(d) => d,
                                None => unreached(),
                            };
                            R2Reply::File {
                                bytes,
                                content_type: served_type(ct),
                                content_digest: digest,
                            }
                        },
                        Ok(None) => R2Reply::NotFound,
                        Err(_) => unreached(),
                    }
                }
            },
            HttpMethod::Head => {
                if key.is_empty() {
                    R2Reply::MethodNotAllowed
                } else {
                    match store.download(key) {
                        Ok(Some((bytes, sha, ct))) => {
                            proof {
                                lemma_spec_hex_len(crate::digest::sha256_of(bytes@));
                                lemma_hex_roundtrip(crate::digest::sha256_of(bytes@));
                            }
                            let digest = match content_digest_value(sha.as_str()) {
                                Some(d) => d,
                                None => unreached(),
                            };
                            R2Reply::FileHead {
                                content_length: bytes.len(),
                                content_type: served_type(ct),
                                content_digest: digest,
                            }
                        },
                        Ok(None) => R2Reply::NotFound,
                        Err(_) => unreached(),
                    }
                }
            },
            HttpMethod::Put | HttpMethod::Post => {
                match store.upload(key, body, content_type, now) {
                    Ok(out) => {
                        let UploadOutcome { metadata, modified } = out;
                        R2Reply::Uploaded { metadata, not_modified: !modified }
                    },
                    Err(StoreError::RateLimited { retry_after_ms }) => {
                        proof {
                            assert(now / 1000 <= u64::MAX / 1000);
                            assert(retry_after_ms / 1000 <= u64::MAX / 1000);
                        }
                        R2Reply::RateLimited(rate_limit_response(retry_after_ms, now / 1000))
                    },
                    Err(StoreError::Integrity { .. }) => unreached(),
                }
            },
            HttpMethod::Delete => {
                store.delete(key);
                R2Reply::Deleted
            },
        }
    }

} // verus!
