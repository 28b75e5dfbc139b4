//! Request routing: which handler a path belongs to, and the identifiers
//! carried in counter and session paths.

use crate::strutil::{
    spec_split, spec_starts_with, split_slashes, str_eq, str_starts_with, str_strip_prefix,
};
use vstd::prelude::*;

verus! {

/// The HTTP methods the service distinguishes.
#[derive(PartialEq, Eq, Structural, Clone, Copy, Debug)]
pub enum HttpMethod {
    Get,
    Head,
    Put,
    Post,
    Delete,
}

/// The handler a request path is dispatched to.
#[derive(PartialEq, Eq, Structural, Clone, Copy, Debug)]
pub enum Route {
    Root,
    Files,
    Counter,
    Session,
    NotFound,
}

/// Which handler a path belongs to: file storage under `/files/`, the
/// counter under `/counter`, sessions under `/session`, a greeting at the
/// root, and nothing anywhere else.
pub open spec fn spec_route(path: Seq<char>) -> Route {
    if spec_starts_with(path, "/files/"@) {
        Route::Files
    } else if spec_starts_with(path, "/counter"@) {
        Route::Counter
    } else if spec_starts_with(path, "/session"@) {
        Route::Session
    } else if path == "/"@ {
        Route::Root
    } else {
        Route::NotFound
    }
}

/// Dispatches a request path to its handler.
pub fn route_of_path(path: &str) -> (r: Route)
    ensures
        r == spec_route(path@),
{
    if str_starts_with(path, "/files/") {
        Route::Files
    } else if str_starts_with(path, "/counter") {
        Route::Counter
    } else if str_starts_with(path, "/session") {
        Route::Session
    } else if str_eq(path, "/") {
        Route::Root
    } else {
        Route::NotFound
    }
}

/// The counter instance a path addresses: what follows `/counter/`, or
/// `default` for the bare `/counter` path (with or without the trailing
/// slash) and for anything that is not a counter path at all.
pub open spec fn spec_counter_id(path: Seq<char>) -> Seq<char> {
    if path == "/counter"@ || path == "/counter/"@ {
        "default"@
    } else if spec_starts_with(path, "/counter/"@) {
        path.skip("/counter/"@.len() as int)
    } else {
        "default"@
    }
}

/// Extracts the counter instance name from a request path.
pub fn counter_id_of_path<'a>(path: &'a str) -> (r: &'a str)
    ensures
        r@ == spec_counter_id(path@),
{
    if str_eq(path, "/counter") || str_eq(path, "/counter/") {
        "default"
    } else {
        match str_strip_prefix(path, "/counter/") {
            Some(rest) => rest,
            None => "default",
        }
    }
}

/// The session a path addresses: the first component after `/session/` is
/// the session id, a non-empty second component is the key within the
/// session. `None` when the path carries no session id.
pub open spec fn spec_session_target(path: Seq<char>) -> Option<(Seq<char>, Option<Seq<char>>)> {
    if !spec_starts_with(path, "/session/"@) {
        None
    } else {
        let parts = spec_split(path.skip("/session/"@.len() as int), '/');
        if parts[0].len() == 0 {
            None
        } else if parts.len() >= 2 && parts[1].len() > 0 {
            Some((parts[0], Some(parts[1])))
        } else {
            Some((parts[0], None))
        }
    }
}

/// A split never yields an empty list of pieces.
proof fn lemma_split_nonempty(s: Seq<char>, sep: char, cur: Seq<char>)
    ensures
        crate::strutil::spec_split_acc(s, sep, cur).len() >= 1,
    decreases s.len(),
{
    if s.len() != 0 {
        if s.first() == sep {
            lemma_split_nonempty(s.drop_first(), sep, Seq::empty());
        } else {
            lemma_split_nonempty(s.drop_first(), sep, cur.push(s.first()));
        }
    }
}

/// Extracts the session id and optional key from a request path.
pub fn session_target_of_path(path: &str) -> (r: Option<(String, Option<String>)>)
    ensures
        match r {
            None => spec_session_target(path@) is None,
            Some((id, key)) => spec_session_target(path@) matches Some((sid, skey)) && id@ == sid
                && crate::mapping::view_opt(key) == skey,
        },
{
    let rest = match str_strip_prefix(path, "/session/") {
        None => {
            return None;
        },
        Some(rest) => rest,
    };
    let parts = split_slashes(rest);
    proof {
        lemma_split_nonempty(rest@, '/', Seq::<char>::empty());
        assert(parts@.map_values(|p: String| p@).len() == parts@.len());
        assert(parts@[0]@ == parts@.map_values(|p: String| p@)[0]);
    }
    let first: &String = &parts[0];
    if first.as_str().is_empty() {
        return None;
    }
    if parts.len() >= 2 {
        let second: &String = &parts[1];
        proof {
            assert(parts@[1]@ == parts@.map_values(|p: String| p@)[1]);
        }
        if !second.as_str().is_empty() {
            return Some((first.clone(), Some(second.clone())));
        }
    }
    Some((first.clone(), None))
}

} // verus!
