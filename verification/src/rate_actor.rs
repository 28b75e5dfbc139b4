//! The rate-limit coordination actor: one globally addressed, serially
//! executing owner of the rate limiter, so that handlers that share no
//! memory observe a single consistent write history per key. Its HTTP
//! surface answers `GET /check/{key}` with "allowed" or a rate-limit
//! rejection carrying retry headers.

use crate::decfmt::{retry_secs_string, spec_retry_secs};
use crate::rate_limiter::{
    lemma_cleanup_preserves_check, spec_after_check, spec_after_cleanup, spec_check_allowed,
    spec_retry_ms, RateLimiter,
};
use crate::strutil::{spec_starts_with, str_strip_prefix};
use vstd::prelude::*;
use vstd::string::StrSliceExecFns;
use vstd::string::StringExecFns;

verus! {

/// The parts of a rate-limit rejection: status 429, the retry delay in
/// decimal seconds, the limit and remaining-quota headers, the instant
/// (Unix seconds) at which the limit resets, and the response body.
#[derive(Debug)]
pub struct RateLimitHttp {
    pub status: u16,
    pub retry_after: String,
    pub limit: String,
    pub remaining: String,
    pub reset: u64,
    pub body: String,
}

/// Builds the rate-limit rejection for a retry delay of `retry_after_ms`
/// milliseconds, at `now_s` Unix seconds.
pub fn rate_limit_response(retry_after_ms: u64, now_s: u64) -> (r: RateLimitHttp)
    requires
        now_s + retry_after_ms / 1000 <= u64::MAX,
    ensures
        r.status == 429,
        r.retry_after@ == spec_retry_secs(retry_after_ms),
        r.limit@ == "1"@,
        r.remaining@ == "0"@,
        r.reset == now_s + retry_after_ms / 1000,
        r.body@ == "Too Many Requests - R2 write rate limit exceeded"@,
{
    RateLimitHttp {
        status: 429,
        retry_after: retry_secs_string(retry_after_ms),
        limit: String::from_str("1"),
        remaining: String::from_str("0"),
        reset: now_s + retry_after_ms / 1000,
        body: String::from_str("Too Many Requests - R2 write rate limit exceeded"),
    }
}

/// The outcome of a rate-limit check made through the coordination actor.
pub enum RateLimitResult {
    Allowed,
    Limited(RateLimitHttp),
}

/// What the actor's HTTP surface answers.
pub enum RateActorReply {
    /// A malformed check path, with the message of the 400 answer.
    BadRequest(&'static str),
    /// The write is allowed (and now recorded).
    Allowed,
    /// The write is denied, with the rejection's headers and body.
    Limited(RateLimitHttp),
}

/// The key a check path addresses: what follows `/check/`, which must be
/// non-empty.
pub open spec fn spec_check_key(path: Seq<char>) -> Result<Seq<char>, Seq<char>> {
    if !spec_starts_with(path, "/check/"@) {
        Err("Invalid path"@)
    } else {
        let key = path.skip("/check/"@.len() as int);
        if key.len() == 0 {
            Err("Key is required"@)
        } else {
            Ok(key)
        }
    }
}

/// The rate-limit coordination actor: the single owner of one limiter.
pub struct R2RateLimiterObject {
    limiter: RateLimiter,
}

impl R2RateLimiterObject {
    /// The recorded write history.
    pub closed spec fn history(&self) -> Map<Seq<char>, Seq<u64>> {
        self.limiter.history()
    }

    /// The configured capacity per key per window.
    pub closed spec fn max(&self) -> u32 {
        self.limiter.max()
    }

    /// The window length in milliseconds.
    pub closed spec fn window(&self) -> u64 {
        self.limiter.window()
    }

    /// Well-formedness of the owned limiter.
    pub closed spec fn wf(&self) -> bool {
        self.limiter.wf()
    }

    /// Creates the actor with an empty limiter allowing one write per key
    /// per second, the write rate the blob backend tolerates.
    pub fn new() -> (r: R2RateLimiterObject)
        ensures
            r.wf(),
            r.history() == Map::<Seq<char>, Seq<u64>>::empty(),
            r.max() == 1,
            r.window() == 1000,
    {
        R2RateLimiterObject { limiter: RateLimiter::new(1) }
    }

    /// Serves one check request at instant `now` (milliseconds).
    ///
    /// The path must read `/check/{key}` with a non-empty key; anything
    /// else is refused without touching the limiter. A valid check first
    /// runs a cleanup pass, then the sliding-window check itself, whose
    /// outcome is exactly what the check on the untouched history would
    /// have been: allowed and recorded, or denied with the retry delay in
    /// the rejection's headers.
    pub fn fetch(&mut self, path: &str, now: u64) -> (r: RateActorReply)
        requires
            old(self).wf(),
            now <= u64::MAX - 2000,
        ensures
            final(self).wf(),
            final(self).max() == old(self).max(),
            final(self).window() == old(self).window(),
            spec_check_key(path@) matches Err(msg) ==> {
                &&& r matches RateActorReply::BadRequest(m) && m@ == msg
                &&& final(self).history() == old(self).history()
            },
            spec_check_key(path@) matches Ok(key) ==> {
                &&& final(self).history() == spec_after_check(
                    spec_after_cleanup(old(self).history(), now, old(self).window()),
                    key,
                    now,
                    old(self).window(),
                    old(self).max(),
                )
                &&& (r is Allowed <==> spec_check_allowed(
                    old(self).history(),
                    key,
                    now,
                    old(self).window(),
                    old(self).max(),
                ))
                &&& (r matches RateActorReply::Limited(h) ==> {
                    &&& h.status == 429
                    &&& exists|retry: u64|
                        retry as int == spec_retry_ms(
                            old(self).history(),
                            key,
                            now,
                            old(self).window(),
                        ) && h.retry_after@ == spec_retry_secs(retry) && h.reset == now / 1000
                            + retry / 1000
                    &&& h.limit@ == "1"@
                    &&& h.remaining@ == "0"@
                })
            },
    {
        let key = match str_strip_prefix(path, "/check/") {
            None => {
                return RateActorReply::BadRequest("Invalid path");
            },
            Some(key) => key,
        };
        if key.is_empty() {
            return RateActorReply::BadRequest("Key is required");
        }
        let ghost h0 = self.limiter.history();
        self.limiter.cleanup_at(now);
        proof {
            lemma_cleanup_preserves_check(
                h0,
                key@,
                now,
                now,
                self.limiter.window(),
                self.limiter.max(),
            );
        }
        match self.limiter.check_rate_limit_at(key, now) {
            Ok(()) => RateActorReply::Allowed,
            Err(retry) => {
                proof {
                    assert(now / 1000 <= u64::MAX / 1000);
                    assert(retry / 1000 <= u64::MAX / 1000);
                }
                RateActorReply::Limited(rate_limit_response(retry, now / 1000))
            },
        }
    }
}

/// Checks the write rate for `key` through the coordination actor.
///
/// An absent actor means the coordinator is unconfigured or unreachable;
/// the check then fails open and allows the write, so that rate limiting
/// can never take the upload path down with it. With an actor present,
/// the check is the actor's own: cleanup, then the sliding-window check.
pub fn check_r2_rate_limit(
    actor: &mut Option<R2RateLimiterObject>,
    key: &str,
    now: u64,
) -> (r: RateLimitResult)
    requires
        match *old(actor) {
            Some(a) => a.wf(),
            None => true,
        },
        now <= u64::MAX - 2000,
    ensures
        match *old(actor) {
            None => (*final(actor)) is None && r is Allowed,
            Some(a) => {
                &&& (*final(actor)) matches Some(b) && b.wf() && b.max() == a.max() && b.window()
                    == a.window() && b.history() == spec_after_check(
                    spec_after_cleanup(a.history(), now, a.window()),
                    key@,
                    now,
                    a.window(),
                    a.max(),
                )
                &&& (r is Allowed <==> spec_check_allowed(
                    a.history(),
                    key@,
                    now,
                    a.window(),
                    a.max(),
                ))
                &&& (r matches RateLimitResult::Limited(h) ==> h.status == 429)
            },
        },
{
    match actor {
        None => RateLimitResult::Allowed,
        Some(a) => {
            let ghost h0 = a.limiter.history();
            a.limiter.cleanup_at(now);
            proof {
                lemma_cleanup_preserves_check(
                    h0,
                    key@,
                    now,
                    now,
                    a.limiter.window(),
                    a.limiter.max(),
                );
            }
            match a.limiter.check_rate_limit_at(key, now) {
                Ok(()) => RateLimitResult::Allowed,
                Err(retry) => {
                    proof {
                        assert(now / 1000 <= u64::MAX / 1000);
                        assert(retry / 1000 <= u64::MAX / 1000);
                    }
                    RateLimitResult::Limited(rate_limit_response(retry, now / 1000))
                },
            }
        },
    }
}

} // verus!
