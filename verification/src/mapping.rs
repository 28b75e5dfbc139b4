//! The filename index: a strongly consistent map from filename to the
//! metadata of its current content, owned by a single serially-executing
//! coordinator so that concurrent uploads, downloads and deletes observe
//! one linearizable order.

use crate::keyindex::{index_ok, lemma_index_insert, lemma_index_remove};
use crate::routes::HttpMethod;
use crate::strutil::{spec_starts_with, str_eq, str_starts_with};
use vstd::hash_map::StringHashMap;
use vstd::pervasive::unreached;
use vstd::prelude::*;

verus! {

/// The metadata recorded for one filename: the hash of its current
/// content, the content's size, an optional content type, and the times of
/// first and latest write.
pub struct FileMapping {
    pub filename: String,
    pub sha256: String,
    pub size: usize,
    pub content_type: Option<String>,
    pub created_at: u64,
    pub updated_at: u64,
}

/// The mathematical value of a [`FileMapping`].
pub ghost struct MappingView {
    pub filename: Seq<char>,
    pub sha256: Seq<char>,
    pub size: int,
    pub content_type: Option<Seq<char>>,
    pub created_at: u64,
    pub updated_at: u64,
}

/// The view of an optional owned string.
pub open spec fn view_opt(o: Option<String>) -> Option<Seq<char>> {
    match o {
        Some(s) => Some(s@),
        None => None,
    }
}

/// The view of an optional string slice.
pub open spec fn view_opt_ref(o: Option<&str>) -> Option<Seq<char>> {
    match o {
        Some(s) => Some(s@),
        None => None,
    }
}

impl View for FileMapping {
    type V = MappingView;

    open spec fn view(&self) -> MappingView {
        MappingView {
            filename: self.filename@,
            sha256: self.sha256@,
            size: self.size as int,
            content_type: view_opt(self.content_type),
            created_at: self.created_at,
            updated_at: self.updated_at,
        }
    }
}

/// Copies an optional owned string.
fn clone_opt(o: &Option<String>) -> (r: Option<String>)
    ensures
        r == *o,
{
    match o {
        Some(s) => Some(s.clone()),
        None => None,
    }
}

impl Clone for FileMapping {
    fn clone(&self) -> (res: Self)
        ensures
            res == *self,
    {
        FileMapping {
            filename: self.filename.clone(),
            sha256: self.sha256.clone(),
            size: self.size,
            content_type: clone_opt(&self.content_type),
            created_at: self.created_at,
            updated_at: self.updated_at,
        }
    }
}

/// Whether a filename passes an optional prefix filter.
pub open spec fn spec_prefix_matches(name: Seq<char>, prefix: Option<Seq<char>>) -> bool {
    match prefix {
        Some(p) => spec_starts_with(name, p),
        None => true,
    }
}

/// The result of writing a mapping: the new index, the resulting record,
/// and whether the content hash differs from what the filename held before.
pub open spec fn spec_put(
    m: Map<Seq<char>, MappingView>,
    filename: Seq<char>,
    sha256: Seq<char>,
    size: int,
    content_type: Option<Seq<char>>,
    now: u64,
) -> (Map<Seq<char>, MappingView>, MappingView, bool) {
    let created_at = if m.contains_key(filename) {
        m[filename].created_at
    } else {
        now
    };
    let changed = !(m.contains_key(filename) && m[filename].sha256 == sha256);
    let rec = MappingView { filename, sha256, size, content_type, created_at, updated_at: now };
    (m.insert(filename, rec), rec, changed)
}

/// A record's creation time is immutable: every write to an already-mapped
/// filename keeps the time of its first write, whatever content it brings,
/// while the update time always advances to the write's instant.
pub proof fn lemma_created_at_immutable(
    m: Map<Seq<char>, MappingView>,
    filename: Seq<char>,
    sha256: Seq<char>,
    size: int,
    content_type: Option<Seq<char>>,
    now: u64,
)
    requires
        m.contains_key(filename),
    ensures
        spec_put(m, filename, sha256, size, content_type, now).0[filename].created_at
            == m[filename].created_at,
        spec_put(m, filename, sha256, size, content_type, now).0[filename].updated_at == now,
{
}

/// The records a listing pass collects, walking the key index in order and
/// keeping the records whose filename passes the prefix filter.
pub open spec fn spec_listed(
    names: Seq<String>,
    m: Map<Seq<char>, MappingView>,
    prefix: Option<Seq<char>>,
) -> Seq<MappingView>
    decreases names.len(),
{
    if names.len() == 0 {
        Seq::empty()
    } else {
        let rest = spec_listed(names.drop_last(), m, prefix);
        if spec_prefix_matches(names.last()@, prefix) {
            rest.push(m[names.last()@])
        } else {
            rest
        }
    }
}

/// What a listing guarantees: each returned record is a current mapping
/// whose filename passes the filter, each matching mapping is returned,
/// and no filename is returned twice.
proof fn lemma_listed_props(
    names: Seq<String>,
    m: Map<Seq<char>, MappingView>,
    prefix: Option<Seq<char>>,
)
    requires
        forall|a: int, b: int| 0 <= a < b < names.len() ==> names[a]@ != names[b]@,
        forall|a: int|
            0 <= a < names.len() ==> m.contains_key((#[trigger] names[a])@)
                && m[names[a]@].filename == names[a]@,
    ensures
        forall|i: int|
            0 <= i < spec_listed(names, m, prefix).len() ==> {
                let rec = #[trigger] spec_listed(names, m, prefix)[i];
                &&& m.contains_key(rec.filename)
                &&& m[rec.filename] == rec
                &&& spec_prefix_matches(rec.filename, prefix)
                &&& exists|a: int| 0 <= a < names.len() && names[a]@ == rec.filename
            },
        forall|a: int|
            0 <= a < names.len() && spec_prefix_matches((#[trigger] names[a])@, prefix)
                ==> exists|i: int|
                0 <= i < spec_listed(names, m, prefix).len() && spec_listed(names, m, prefix)[i]
                    .filename == names[a]@,
        forall|i: int, j: int|
            0 <= i < j < spec_listed(names, m, prefix).len() ==> spec_listed(
                names,
                m,
                prefix,
            )[i].filename != spec_listed(names, m, prefix)[j].filename,
    decreases names.len(),
{
    if names.len() > 0 {
        let rest = names.drop_last();
        lemma_listed_props(rest, m, prefix);
        let lr = spec_listed(rest, m, prefix);
        let lf = spec_listed(names, m, prefix);
        let k = names.last()@;
        assert forall|a: int|
            0 <= a < names.len() && spec_prefix_matches((#[trigger] names[a])@, prefix)
                implies exists|i: int| 0 <= i < lf.len() && lf[i].filename == names[a]@ by {
            if a < names.len() - 1 {
                assert(rest[a] == names[a]);
                let i = choose|i: int| 0 <= i < lr.len() && lr[i].filename == rest[a]@;
                assert(lf[i].filename == names[a]@);
            } else {
                assert(m[k].filename == k);
                assert(lf[lf.len() - 1].filename == names[a]@);
            }
        }
        assert forall|i: int, j: int|
            0 <= i < j < lf.len() implies lf[i].filename != lf[j].filename by {
            if spec_prefix_matches(k, prefix) && j == lf.len() - 1 {
                let a = choose|a: int| 0 <= a < rest.len() && rest[a]@ == lr[i].filename;
                assert(names[a] == rest[a]);
                assert(names[a]@ != k);
            }
        }
    }
}

/// The filename index of the mapping coordinator: a map from filename to
/// its current record, with the keys enumerable.
pub struct MappingStore {
    mappings: StringHashMap<FileMapping>,
    names: Vec<String>,
}

impl MappingStore {
    /// The recorded mappings, as a map from filename to record view.
    pub closed spec fn mappings(&self) -> Map<Seq<char>, MappingView> {
        self.mappings@.map_values(|m: FileMapping| m@)
    }

    /// Well-formedness: the name index mirrors the map's domain, and each
    /// record carries the filename it is stored under.
    pub closed spec fn wf(&self) -> bool {
        &&& index_ok(self.names@, self.mappings())
        &&& (forall|k: Seq<char>|
            #[trigger] self.mappings().contains_key(k) ==> self.mappings()[k].filename == k)
    }

    /// Creates an empty filename index.
    pub fn new() -> (r: MappingStore)
        ensures
            r.wf(),
            r.mappings() == Map::<Seq<char>, MappingView>::empty(),
    {
        MappingStore { mappings: StringHashMap::new(), names: Vec::new() }
    }

    /// Looks up the record for a filename.
    pub fn get(&self, filename: &str) -> (r: Option<FileMapping>)
        requires
            self.wf(),
        ensures
            match r {
                Some(rec) => self.mappings().contains_key(filename@) && rec@ == self.mappings()[
                    filename@
                ],
                None => !self.mappings().contains_key(filename@),
            },
    {
        match self.mappings.get(filename) {
            Some(rec) => Some(rec.clone()),
            None => None,
        }
    }

    /// Creates or updates the record for a filename: a fresh record is
    /// created at `now`, an existing one keeps its creation time; the
    /// update time always advances to `now`. Also reports whether the
    /// content hash changed, so that a caller can answer "not modified".
    pub fn put(
        &mut self,
        filename: &str,
        sha256: String,
        size: usize,
        content_type: Option<String>,
        now: u64,
    ) -> (r: (FileMapping, bool))
        requires
            old(self).wf(),
        ensures
            final(self).wf(),
            final(self).mappings() == spec_put(
                old(self).mappings(),
                filename@,
                sha256@,
                size as int,
                view_opt(content_type),
                now,
            ).0,
            r.0@ == spec_put(
                old(self).mappings(),
                filename@,
                sha256@,
                size as int,
                view_opt(content_type),
                now,
            ).1,
            r.1 == spec_put(
                old(self).mappings(),
                filename@,
                sha256@,
                size as int,
                view_opt(content_type),
                now,
            ).2,
    {
        let ghost m0 = old(self).mappings();
        let had = self.mappings.contains_key(filename);
        let (created_at, changed) = match self.mappings.get(filename) {
            Some(existing) => (
                existing.created_at,
                !str_eq(existing.sha256.as_str(), sha256.as_str()),
            ),
            None => (now, true),
        };
        let rec = FileMapping {
            filename: filename.to_owned(),
            sha256,
            size,
            content_type,
            created_at,
            updated_at: now,
        };
        let ret = rec.clone();
        self.mappings.insert(filename.to_owned(), rec);
        if !had {
            self.names.push(filename.to_owned());
        }
        proof {
            assert(self.mappings() =~= m0.insert(filename@, ret@));
            if !m0.contains_key(filename@) {
                assert(self.names@.subrange(0, old(self).names@.len() as int) =~= old(
                    self,
                ).names@);
            }
            lemma_index_insert(
                old(self).names@,
                self.names@,
                m0,
                self.mappings(),
                filename@,
            );
        }
        (ret, changed)
    }

    /// Deletes the record for a filename. Deleting an absent filename is
    /// not an error and changes nothing.
    pub fn delete(&mut self, filename: &str)
        requires
            old(self).wf(),
        ensures
            final(self).wf(),
            final(self).mappings() == old(self).mappings().remove(filename@),
    {
        let ghost m0 = old(self).mappings();
        if !self.mappings.contains_key(filename) {
            proof {
                assert(self.mappings() =~= m0.remove(filename@));
            }
            return ;
        }
        proof {
            assert(m0.contains_key(filename@));
        }
        self.mappings.remove(filename);
        proof {
            assert(self.mappings() =~= m0.remove(filename@));
        }
        let n = self.names.len();
        for i in 0..n
            invariant
                old(self).wf(),
                m0 == old(self).mappings(),
                m0.contains_key(filename@),
                self.names@ == old(self).names@,
                n == self.names@.len(),
                self.mappings() == m0.remove(filename@),
                forall|j: int| 0 <= j < i ==> (#[trigger] self.names@[j])@ != filename@,
        {
            if str_eq(self.names[i].as_str(), filename) {
                self.names.remove(i);
                proof {
                    assert(self.names@ =~= old(self).names@.remove(i as int));
                    lemma_index_remove(old(self).names@, m0, self.mappings(), i as int);
                }
                return ;
            }
        }
        proof {
            let a = choose|a: int|
                0 <= a < old(self).names@.len() && (#[trigger] old(self).names@[a])@
                    == filename@;
            assert(false);
        }
        unreached()
    }

    /// Returns the current records, optionally only those whose filename
    /// starts with `prefix`. The order of the result is unspecified.
    pub fn list(&self, prefix: Option<&str>) -> (r: Vec<FileMapping>)
        requires
            self.wf(),
        ensures
            forall|i: int|
                0 <= i < r@.len() ==> {
                    let rec = (#[trigger] r@[i])@;
                    &&& self.mappings().contains_key(rec.filename)
                    &&& self.mappings()[rec.filename] == rec
                    &&& spec_prefix_matches(rec.filename, view_opt_ref(prefix))
                },
            forall|k: Seq<char>|
                #[trigger] self.mappings().contains_key(k) && spec_prefix_matches(
                    k,
                    view_opt_ref(prefix),
                ) ==> exists|i: int| 0 <= i < r@.len() && r@[i]@.filename == k,
            forall|i: int, j: int| 0 <= i < j < r@.len() ==> r@[i]@.filename != r@[j]@.filename,
    {
        let ghost m = self.mappings();
        let ghost pv = view_opt_ref(prefix);
        let mut r: Vec<FileMapping> = Vec::new();
        let n = self.names.len();
        proof {
            assert(self.names@.subrange(0, 0) =~= Seq::<String>::empty());
        }
        for i in 0..n
            invariant
                self.wf(),
                m == self.mappings(),
                pv == view_opt_ref(prefix),
                n == self.names@.len(),
                r@.map_values(|fm: FileMapping| fm@) =~= spec_listed(
                    self.names@.subrange(0, i as int),
                    m,
                    pv,
                ),
        {
            let name: &String = &self.names[i];
            let matches = match prefix {
                Some(p) => str_starts_with(name.as_str(), p),
                None => true,
            };
            let ghost r0 = r@;
            if matches {
                let rec = match self.mappings.get(name.as_str()) {
                    Some(rec) => rec.clone(),
                    None => unreached(),
                };
                r.push(rec);
            }
            proof {
                let pre = self.names@.subrange(0, i as int);
                let post = self.names@.subrange(0, i as int + 1);
                assert(post.drop_last() =~= pre);
                assert(post.last() == self.names@[i as int]);
                if matches {
                    assert(r@.map_values(|fm: FileMapping| fm@) =~= r0.map_values(
                        |fm: FileMapping| fm@,
                    ).push(r@.last()@));
                }
            }
        }
        proof {
            assert(self.names@.subrange(0, n as int) =~= self.names@);
            lemma_listed_props(self.names@, m, pv);
            assert forall|k: Seq<char>|
                #[trigger] m.contains_key(k) && spec_prefix_matches(k, pv) implies exists|i: int|
                0 <= i < r@.len() && r@[i]@.filename == k by {
                let a = choose|a: int| 0 <= a < self.names@.len() && self.names@[a]@ == k;
                let i = choose|i: int|
                    0 <= i < spec_listed(self.names@, m, pv).len() && spec_listed(
                        self.names@,
                        m,
                        pv,
                    )[i].filename == self.names@[a]@;
                assert(r@[i]@ == spec_listed(self.names@, m, pv)[i]);
            }
            assert forall|i: int|
                0 <= i < r@.len() implies {
                let rec = (#[trigger] r@[i])@;
                &&& m.contains_key(rec.filename)
                &&& m[rec.filename] == rec
                &&& spec_prefix_matches(rec.filename, pv)
            } by {
                assert(r@[i]@ == spec_listed(self.names@, m, pv)[i]);
            }
            assert forall|i: int, j: int|
                0 <= i < j < r@.len() implies r@[i]@.filename != r@[j]@.filename by {
                assert(r@[i]@ == spec_listed(self.names@, m, pv)[i]);
                assert(r@[j]@ == spec_listed(self.names@, m, pv)[j]);
            }
        }
        r
    }
}

/// The parsed body of a mapping write: the content hash, the content's
/// size, and an optional content type.
pub struct MappingPutRequest {
    pub sha256: String,
    pub size: usize,
    pub content_type: Option<String>,
}

/// What the mapping coordinator answers.
pub enum MappingReply {
    /// A read found the filename's record.
    Found(FileMapping),
    /// All current records, for a read of the bare root path.
    Listing(Vec<FileMapping>),
    /// A write was applied; `not_modified` reports an unchanged content
    /// hash (the 304 answer, still carrying the record).
    Written { record: FileMapping, not_modified: bool },
    /// A read found no record for the filename.
    NotFound,
    /// A write or delete without a filename.
    FilenameRequired,
    /// A write whose body could not be read.
    InvalidBody,
    /// The record was deleted.
    Deleted,
    /// A method the coordinator does not serve.
    MethodNotAllowed,
}

/// The mapping coordination actor: the single owner of the filename
/// index, serving its HTTP-shaped protocol. The path below `/` names the
/// file; the bare root path addresses the whole listing.
pub struct FileMappingObject {
    store: MappingStore,
}

impl FileMappingObject {
    /// The recorded mappings.
    pub closed spec fn mappings(&self) -> Map<Seq<char>, MappingView> {
        self.store.mappings()
    }

    /// Well-formedness of the owned index.
    pub closed spec fn wf(&self) -> bool {
        self.store.wf()
    }

    /// Creates the actor with an empty index.
    pub fn new() -> (r: FileMappingObject)
        ensures
            r.wf(),
            r.mappings() == Map::<Seq<char>, MappingView>::empty(),
    {
        FileMappingObject { store: MappingStore::new() }
    }

    /// Serves one request at instant `now`. The filename is what follows
    /// the leading slash of `path`; `body` carries a write's parsed body.
    ///
    /// A read of a filename reports its record or that none exists; a
    /// read of the root path lists every record. A write to a filename
    /// creates or updates its record, reporting "not modified" when the
    /// content hash is unchanged. A delete removes the record and is
    /// idempotent. Writes and deletes to the root path are refused, as is
    /// a write without a readable body, and any other method.
    pub fn fetch(
        &mut self,
        method: HttpMethod,
        path: &str,
        body: Option<MappingPutRequest>,
        now: u64,
    ) -> (r: MappingReply)
        requires
            old(self).wf(),
        ensures
            final(self).wf(),
            ({
                let name = if spec_starts_with(path@, "/"@) {
                    path@.skip(1)
                } else {
                    path@
                };
                match method {
                    HttpMethod::Get => {
                        &&& final(self).mappings() == old(self).mappings()
                        &&& if name.len() == 0 {
                            r matches MappingReply::Listing(recs) && spec_mapping_listing_ok(
                                recs@,
                                old(self).mappings(),
                            )
                        } else if old(self).mappings().contains_key(name) {
                            r matches MappingReply::Found(rec) && rec@ == old(self).mappings()[
                                name
                            ]
                        } else {
                            r is NotFound
                        }
                    },
                    HttpMethod::Put => {
                        if name.len() == 0 {
                            &&& final(self).mappings() == old(self).mappings()
                            &&& r is FilenameRequired
                        } else {
                            match body {
                                None => {
                                    &&& final(self).mappings() == old(self).mappings()
                                    &&& r is InvalidBody
                                },
                                Some(req) => {
                                    let putr = spec_put(
                                        old(self).mappings(),
                                        name,
                                        req.sha256@,
                                        req.size as int,
                                        view_opt(req.content_type),
                                        now,
                                    );
                                    &&& final(self).mappings() == putr.0
                                    &&& r matches MappingReply::Written {
                                        record,
                                        not_modified,
                                    } && record@ == putr.1 && not_modified == !putr.2
                                },
                            }
                        }
                    },
                    HttpMethod::Delete => {
                        if name.len() == 0 {
                            &&& final(self).mappings() == old(self).mappings()
                            &&& r is FilenameRequired
                        } else {
                            &&& final(self).mappings() == old(self).mappings().remove(name)
                            &&& r is Deleted
                        }
                    },
                    _ => final(self).mappings() == old(self).mappings()
                        && r is MethodNotAllowed,
                }
            }),
    {
        let filename = match crate::strutil::str_strip_prefix(path, "/") {
            Some(rest) => rest,
            None => path,
        };
        proof {
            reveal_strlit("/");
        }
        match method {
            HttpMethod::Get => {
                if filename.is_empty() {
                    let recs = self.store.list(None);
                    proof {
                        assert forall|k: Seq<char>| #[trigger]
                            old(self).mappings().contains_key(k) implies exists|i: int|
                            0 <= i < recs@.len() && recs@[i]@.filename == k by {
                            assert(spec_prefix_matches(k, view_opt_ref(None::<&str>)));
                        }
                        assert(spec_mapping_listing_ok(recs@, old(self).mappings()));
                    }
                    MappingReply::Listing(recs)
                } else {
                    match self.store.get(filename) {
                        Some(rec) => MappingReply::Found(rec),
                        None => MappingReply::NotFound,
                    }
                }
            },
            HttpMethod::Put => {
                if filename.is_empty() {
                    return MappingReply::FilenameRequired;
                }
                match body {
                    None => MappingReply::InvalidBody,
                    Some(req) => {
                        let (record, changed) = self.store.put(
                            filename,
                            req.sha256,
                            req.size,
                            req.content_type,
                            now,
                        );
                        MappingReply::Written { record, not_modified: !changed }
                    },
                }
            },
            HttpMethod::Delete => {
                if filename.is_empty() {
                    return MappingReply::FilenameRequired;
                }
                self.store.delete(filename);
                MappingReply::Deleted
            },
            _ => MappingReply::MethodNotAllowed,
        }
    }
}

/// What the coordinator's listing must satisfy: every returned record is a
/// current mapping, and every mapping is returned.
pub open spec fn spec_mapping_listing_ok(
    recs: Seq<FileMapping>,
    m: Map<Seq<char>, MappingView>,
) -> bool {
    &&& (forall|i: int|
        0 <= i < recs.len() ==> {
            let rec = (#[trigger] recs[i])@;
            m.contains_key(rec.filename) && m[rec.filename] == rec
        })
    &&& (forall|k: Seq<char>|
        #[trigger] m.contains_key(k) ==> exists|i: int|
            0 <= i < recs.len() && recs[i]@.filename == k)
}

} // verus!
