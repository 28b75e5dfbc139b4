//! The session actor: per-user session data behind get, put and delete,
//! serially executed. The session's payload is carried as raw text; what
//! it means is the caller's business.

use crate::mapping::view_opt;
use crate::routes::HttpMethod;
use vstd::prelude::*;

verus! {

/// A complete session as a read reports it.
#[derive(Debug)]
pub struct SessionData {
    pub user_id: String,
    pub data: String,
    pub created_at: u64,
    pub updated_at: u64,
}

/// The mathematical value of a session actor's state.
pub ghost struct SessionView {
    pub user_id: Option<Seq<char>>,
    pub data: Option<Seq<char>>,
    pub created_at: Option<u64>,
    pub updated_at: Option<u64>,
}

/// What the session actor answers.
pub enum SessionReply {
    /// The full session, for a read that found every part of it.
    Session(SessionData),
    /// A write was applied; echoes the user id given, or nothing.
    Updated { user_id: Option<String>, timestamp: u64 },
    /// A read found no complete session.
    NotFound,
    /// The session was cleared.
    Cleared,
    /// A method the actor does not serve.
    MethodNotAllowed,
}

/// One user's session: the user id, the payload, and the times of first
/// and latest write, each present only once written.
pub struct SessionObject {
    user_id: Option<String>,
    data: Option<String>,
    created_at: Option<u64>,
    updated_at: Option<u64>,
}

impl View for SessionObject {
    type V = SessionView;

    closed spec fn view(&self) -> SessionView {
        SessionView {
            user_id: view_opt(self.user_id),
            data: view_opt(self.data),
            created_at: self.created_at,
            updated_at: self.updated_at,
        }
    }
}

impl SessionObject {
    /// Creates a session with nothing written yet.
    pub fn new() -> (r: SessionObject)
        ensures
            r@ == (SessionView { user_id: None, data: None, created_at: None, updated_at: None }),
    {
        SessionObject { user_id: None, data: None, created_at: None, updated_at: None }
    }

    /// Serves one request at instant `now`. For a write, `put_user_id` and
    /// `put_data` carry the fields the request body supplied.
    ///
    /// A read reports the session only when every part of it has been
    /// written. A write stores the supplied fields, keeps the first
    /// write's creation time, and stamps the update time. A delete clears
    /// everything. Any other method is refused.
    pub fn fetch(
        &mut self,
        method: HttpMethod,
        put_user_id: Option<String>,
        put_data: Option<String>,
        now: u64,
    ) -> (r: SessionReply)
        ensures
            match method {
                HttpMethod::Get => {
                    &&& final(self)@ == old(self)@
                    &&& match (
                        old(self)@.user_id,
                        old(self)@.data,
                        old(self)@.created_at,
                        old(self)@.updated_at,
                    ) {
                        (Some(u), Some(d), Some(_c), Some(_t)) => r matches SessionReply::Session(
                            s,
                        ) && s.user_id@ == u && s.data@ == d && Some(s.created_at) == old(
                            self,
                        )@.created_at && Some(s.updated_at) == old(self)@.updated_at,
                        _ => r is NotFound,
                    }
                },
                HttpMethod::Put => {
                    &&& final(self)@.user_id == (if put_user_id is Some {
                        view_opt(put_user_id)
                    } else {
                        old(self)@.user_id
                    })
                    &&& final(self)@.data == (if put_data is Some {
                        view_opt(put_data)
                    } else {
                        old(self)@.data
                    })
                    &&& final(self)@.created_at == Some(
                        if old(self)@.created_at is Some {
                            old(self)@.created_at->Some_0
                        } else {
                            now
                        },
                    )
                    &&& final(self)@.updated_at == Some(now)
                    &&& r matches SessionReply::Updated { user_id, timestamp } && view_opt(
                        user_id,
                    ) == view_opt(put_user_id) && timestamp == now
                },
                HttpMethod::Delete => final(self)@ == (SessionView {
                    user_id: None,
                    data: None,
                    created_at: None,
                    updated_at: None,
                }) && r is Cleared,
                _ => final(self)@ == old(self)@ && r is MethodNotAllowed,
            },
    {
        match method {
            HttpMethod::Get => {
                match (&self.user_id, &self.data, &self.created_at, &self.updated_at) {
                    (Some(u), Some(d), Some(c), Some(t)) => SessionReply::Session(
                        SessionData {
                            user_id: u.clone(),
                            data: d.clone(),
                            created_at: *c,
                            updated_at: *t,
                        },
                    ),
                    _ => SessionReply::NotFound,
                }
            },
            HttpMethod::Put => {
                let echoed = match &put_user_id {
                    Some(u) => Some(u.clone()),
                    None => None,
                };
                if put_user_id.is_some() {
                    self.user_id = put_user_id;
                }
                if put_data.is_some() {
                    self.data = put_data;
                }
                if self.created_at.is_none() {
                    self.created_at = Some(now);
                }
                self.updated_at = Some(now);
                SessionReply::Updated { user_id: echoed, timestamp: now }
            },
            HttpMethod::Delete => {
                self.user_id = None;
                self.data = None;
                self.created_at = None;
                self.updated_at = None;
                SessionReply::Cleared
            },
            _ => SessionReply::MethodNotAllowed,
        }
    }
}

} // verus!
