//! A sliding-window rate limiter for write operations.
//!
//! The limiter tracks, per key, the timestamps (milliseconds since the
//! epoch) of recent allowed writes. A write is allowed when fewer than the
//! configured capacity of writes fall inside the trailing window; otherwise
//! it is denied together with the delay after which a retry would succeed.
//! Entries strictly older than one window are evicted on every check, and a
//! cleanup pass drops everything older than twice the window.

use crate::keyindex::{index_ok, lemma_index_insert};
use vstd::hash_map::StringHashMap;
use vstd::prelude::*;

verus! {

/// The eviction cutoff for a check: entries at or below it are outside the
/// window. Saturates at zero near the epoch.
pub open spec fn spec_cutoff(now: u64, window: u64) -> u64 {
    if now >= window {
        (now - window) as u64
    } else {
        0
    }
}

/// The eviction cutoff for a cleanup pass: twice the window back from `now`,
/// saturating at zero.
pub open spec fn spec_cutoff2(now: u64, window: u64) -> u64 {
    if now as int >= 2 * (window as int) {
        (now - 2 * window) as u64
    } else {
        0
    }
}

/// The timestamps of a history entry that are still live against a cutoff:
/// those strictly newer than it, in their original order.
pub open spec fn spec_live(entries: Seq<u64>, cutoff: u64) -> Seq<u64> {
    entries.filter(|t: u64| t > cutoff)
}

/// The recorded history for a key, or the empty history if none is recorded.
pub open spec fn spec_entries(h: Map<Seq<char>, Seq<u64>>, key: Seq<char>) -> Seq<u64> {
    if h.contains_key(key) {
        h[key]
    } else {
        Seq::empty()
    }
}

/// Whether a check for `key` at instant `now` is allowed: fewer live entries
/// than the capacity, or none at all.
pub open spec fn spec_check_allowed(
    h: Map<Seq<char>, Seq<u64>>,
    key: Seq<char>,
    now: u64,
    window: u64,
    max: u32,
) -> bool {
    let live = spec_live(spec_entries(h, key), spec_cutoff(now, window));
    live.len() < max || live.len() == 0
}

/// The retry delay reported by a denied check: the instant at which the
/// oldest live entry leaves the window, minus `now`.
pub open spec fn spec_retry_ms(
    h: Map<Seq<char>, Seq<u64>>,
    key: Seq<char>,
    now: u64,
    window: u64,
) -> int {
    spec_live(spec_entries(h, key), spec_cutoff(now, window))[0] + window - now
}

/// The history map after a check for `key` at instant `now`: the key's
/// entries are trimmed to the live ones, and `now` is appended when the
/// check was allowed (a denied attempt is not recorded).
pub open spec fn spec_after_check(
    h: Map<Seq<char>, Seq<u64>>,
    key: Seq<char>,
    now: u64,
    window: u64,
    max: u32,
) -> Map<Seq<char>, Seq<u64>> {
    let live = spec_live(spec_entries(h, key), spec_cutoff(now, window));
    if spec_check_allowed(h, key, now, window, max) {
        h.insert(key, live.push(now))
    } else {
        h.insert(key, live)
    }
}

/// The history map after a cleanup pass at instant `now`: every entry is
/// trimmed against twice the window, and keys left without entries are
/// dropped.
pub open spec fn spec_after_cleanup(
    h: Map<Seq<char>, Seq<u64>>,
    now: u64,
    window: u64,
) -> Map<Seq<char>, Seq<u64>> {
    Map::new(
        |k: Seq<char>| h.contains_key(k) && spec_live(h[k], spec_cutoff2(now, window)).len() > 0,
        |k: Seq<char>| spec_live(h[k], spec_cutoff2(now, window)),
    )
}

/// The state of one key after a cleanup pass has handled it: it holds
/// exactly its live entries, or is gone when none were live.
spec fn cleaned_one(
    cur: Map<Seq<char>, Seq<u64>>,
    h0: Map<Seq<char>, Seq<u64>>,
    k: Seq<char>,
    cutoff: u64,
) -> bool {
    if spec_live(h0[k], cutoff).len() > 0 {
        cur.contains_key(k) && cur[k] == spec_live(h0[k], cutoff)
    } else {
        !cur.contains_key(k)
    }
}

/// Every live entry was among the original entries and is newer than the
/// cutoff.
pub proof fn lemma_spec_live_elems(entries: Seq<u64>, cutoff: u64)
    ensures
        forall|i: int|
            0 <= i < spec_live(entries, cutoff).len() ==> entries.contains(
                #[trigger] spec_live(entries, cutoff)[i],
            ) && spec_live(entries, cutoff)[i] > cutoff,
        spec_live(entries, cutoff).len() <= entries.len(),
{
    broadcast use vstd::seq_lib::group_filter_ensures;

    let p = |t: u64| t > cutoff;
    assert forall|i: int| 0 <= i < spec_live(entries, cutoff).len() implies entries.contains(
        #[trigger] spec_live(entries, cutoff)[i],
    ) && spec_live(entries, cutoff)[i] > cutoff by {
        assert(entries.filter(p).contains(entries.filter(p)[i]));
        entries.lemma_filter_contains_rev(p, entries.filter(p)[i]);
    }
}

/// An original entry newer than the cutoff stays among the live entries.
pub proof fn lemma_spec_live_keeps(entries: Seq<u64>, cutoff: u64, i: int)
    requires
        0 <= i < entries.len(),
        entries[i] > cutoff,
    ensures
        spec_live(entries, cutoff).contains(entries[i]),
{
    broadcast use vstd::seq_lib::group_filter_ensures;

    assert(spec_live(entries, cutoff) == entries.filter(|t: u64| t > cutoff));
}

/// Filtering a sequence whose entries all satisfy the predicate keeps it
/// unchanged.
proof fn lemma_filter_all_live(entries: Seq<u64>, cutoff: u64)
    requires
        forall|i: int| 0 <= i < entries.len() ==> #[trigger] entries[i] > cutoff,
    ensures
        spec_live(entries, cutoff) =~= entries,
    decreases entries.len(),
{
    reveal(Seq::filter);
    if entries.len() > 0 {
        lemma_filter_all_live(entries.drop_last(), cutoff);
    }
}

/// One cleanup step: after replacing key `kv` (removed when nothing is
/// live, trimmed otherwise), every handled key is in its cleaned state and
/// every pending key is untouched.
#[verifier::rlimit(100)]
proof fn lemma_cleanup_step(
    cur0: Map<Seq<char>, Seq<u64>>,
    cur1: Map<Seq<char>, Seq<u64>>,
    h0: Map<Seq<char>, Seq<u64>>,
    keys: Seq<String>,
    i: int,
    cutoff: u64,
)
    requires
        0 <= i < keys.len(),
        forall|a: int, b: int| 0 <= a < b < keys.len() ==> keys[a]@ != keys[b]@,
        spec_live(h0[keys[i]@], cutoff).len() == 0 ==> cur1 == cur0.remove(keys[i]@),
        spec_live(h0[keys[i]@], cutoff).len() > 0 ==> cur1 == cur0.insert(
            keys[i]@,
            spec_live(h0[keys[i]@], cutoff),
        ),
        forall|j: int| 0 <= j < i ==> cleaned_one(cur0, h0, (#[trigger] keys[j])@, cutoff),
        forall|j: int|
            i <= j < keys.len() ==> cur0.contains_key((#[trigger] keys[j])@)
                && cur0[keys[j]@] == h0[keys[j]@],
        forall|k: Seq<char>| #[trigger] cur0.contains_key(k) ==> h0.contains_key(k),
        h0.contains_key(keys[i]@),
    ensures
        forall|j: int| 0 <= j < i + 1 ==> cleaned_one(cur1, h0, (#[trigger] keys[j])@, cutoff),
        forall|j: int|
            i + 1 <= j < keys.len() ==> cur1.contains_key((#[trigger] keys[j])@)
                && cur1[keys[j]@] == h0[keys[j]@],
        forall|k: Seq<char>| #[trigger] cur1.contains_key(k) ==> h0.contains_key(k),
{
    let kv = keys[i]@;
    assert forall|j: int|
        0 <= j < i + 1 implies cleaned_one(cur1, h0, (#[trigger] keys[j])@, cutoff) by {
        if j < i {
            assert(keys[j]@ != kv);
            assert(cleaned_one(cur0, h0, keys[j]@, cutoff));
        }
    }
    assert forall|j: int|
        i + 1 <= j < keys.len() implies cur1.contains_key((#[trigger] keys[j])@)
        && cur1[keys[j]@] == h0[keys[j]@] by {
        assert(keys[i]@ != keys[j]@);
    }
}

/// Whether a key still has live entries against a cutoff, as a predicate
/// on the stored key strings.
spec fn live_key(h0: Map<Seq<char>, Seq<u64>>, cutoff: u64) -> spec_fn(String) -> bool {
    |s: String| spec_live(h0[s@], cutoff).len() > 0
}

/// The keys a cleanup pass keeps: those of the original index whose
/// recorded entries are not all stale.
spec fn kept_of(keys: Seq<String>, h0: Map<Seq<char>, Seq<u64>>, cutoff: u64) -> Seq<String> {
    keys.filter(live_key(h0, cutoff))
}

/// Filtering a key list whose entries have pairwise distinct views leaves
/// the views pairwise distinct.
proof fn lemma_filter_nodup(keys: Seq<String>, pred: spec_fn(String) -> bool)
    requires
        forall|a: int, b: int| 0 <= a < b < keys.len() ==> keys[a]@ != keys[b]@,
    ensures
        forall|a: int, b: int|
            0 <= a < b < keys.filter(pred).len() ==> keys.filter(pred)[a]@ != keys.filter(
                pred,
            )[b]@,
    decreases keys.len(),
{
    reveal(Seq::filter);
    if keys.len() > 0 {
        let rest = keys.drop_last();
        lemma_filter_nodup(rest, pred);
        let f = keys.filter(pred);
        let fr = rest.filter(pred);
        assert forall|a: int, b: int|
            0 <= a < b < f.len() implies f[a]@ != f[b]@ by {
            if pred(keys.last()) && b == f.len() - 1 {
                assert(f =~= fr.push(keys.last()));
                assert(fr.contains(fr[a]));
                rest.lemma_filter_contains_rev(pred, fr[a]);
                let j = choose|j: int| 0 <= j < rest.len() && rest[j] == fr[a];
                assert(keys[j] == rest[j]);
                assert(keys[j]@ != keys.last()@);
            } else {
                assert(f =~= if pred(keys.last()) {
                    fr.push(keys.last())
                } else {
                    fr
                });
            }
        }
    }
}

/// Copies the entries of `v` that are strictly newer than `cutoff`,
/// preserving their order.
fn filter_live(v: &Vec<u64>, cutoff: u64) -> (r: Vec<u64>)
    ensures
        r@ == spec_live(v@, cutoff),
{
    let mut r: Vec<u64> = Vec::new();
    let n = v.len();
    proof {
        reveal(Seq::filter);
        assert(v@.subrange(0, 0) =~= Seq::<u64>::empty());
        assert(r@ =~= spec_live(v@.subrange(0, 0), cutoff));
    }
    for i in 0..n
        invariant
            n == v@.len(),
            r@ =~= spec_live(v@.subrange(0, i as int), cutoff),
    {
        if v[i] > cutoff {
            r.push(v[i]);
        }
        proof {
            reveal(Seq::filter);
            let pre = v@.subrange(0, i as int);
            let post = v@.subrange(0, i as int + 1);
            assert(post.drop_last() =~= pre);
            assert(post.last() == v@[i as int]);
        }
    }
    proof {
        assert(v@.subrange(0, n as int) =~= v@);
    }
    r
}

/// Relies on chrono's Utc::now: the current wall-clock time, in
/// milliseconds since the Unix epoch.
#[verifier::external_body]
fn now_millis_raw() -> i64 {
    chrono::Utc::now().timestamp_millis()
}

/// The current time in milliseconds since the epoch, clamped into the range
/// the limiter's arithmetic requires.
pub fn now_millis() -> (r: u64)
    ensures
        r <= u64::MAX - 2000,
{
    let raw = now_millis_raw();
    if raw < 0 {
        0
    } else {
        let v = raw as u64;
        if v > u64::MAX - 2000 {
            u64::MAX - 2000
        } else {
            v
        }
    }
}

/// The observable state of a limiter: its recorded history, its capacity,
/// and its window length.
pub ghost struct LimiterView {
    pub history: Map<Seq<char>, Seq<u64>>,
    pub max: u32,
    pub window: u64,
}

/// A sliding-window rate limiter over write timestamps per key.
pub struct RateLimiter {
    /// Per key, the timestamps (milliseconds) of recent allowed writes.
    write_history: StringHashMap<Vec<u64>>,
    /// The keys currently holding a recorded history.
    keys: Vec<String>,
    /// Maximum allowed writes per key within one window.
    max_writes_per_second: u32,
    /// The window length in milliseconds.
    window_ms: u64,
}

impl RateLimiter {
    /// The recorded write history, as a map from key to timestamps.
    pub closed spec fn history(&self) -> Map<Seq<char>, Seq<u64>> {
        self.write_history@.map_values(|v: Vec<u64>| v@)
    }

    /// The limiter's observable state.
    pub open spec fn lview(&self) -> LimiterView {
        LimiterView { history: self.history(), max: self.max(), window: self.window() }
    }

    /// The configured capacity: allowed writes per key per window.
    pub closed spec fn max(&self) -> u32 {
        self.max_writes_per_second
    }

    /// The window length in milliseconds.
    pub closed spec fn window(&self) -> u64 {
        self.window_ms
    }

    /// Well-formedness: the key index mirrors the map's domain exactly, and
    /// every recorded history is non-empty with timestamps small enough that
    /// adding one window cannot overflow.
    pub closed spec fn wf(&self) -> bool {
        &&& self.window_ms == 1000
        &&& index_ok(self.keys@, self.history())
        &&& (forall|k: Seq<char>|
            #[trigger] self.history().contains_key(k) ==> {
                &&& self.history()[k].len() > 0
                &&& (forall|i: int|
                    0 <= i < self.history()[k].len() ==> #[trigger] self.history()[k][i]
                        <= u64::MAX - 1000)
            })
    }

    /// Creates a limiter that allows `max_writes_per_second` writes per key
    /// within a window of one second.
    pub fn new(max_writes_per_second: u32) -> (r: RateLimiter)
        ensures
            r.wf(),
            r.max() == max_writes_per_second,
            r.window() == 1000,
            r.history() == Map::<Seq<char>, Seq<u64>>::empty(),
    {
        RateLimiter {
            write_history: StringHashMap::new(),
            keys: Vec::new(),
            max_writes_per_second,
            window_ms: 1000,
        }
    }

    /// Whether the limiter currently records any write history for `key`.
    pub fn is_tracking(&self, key: &str) -> (r: bool)
        ensures
            r == self.history().contains_key(key@),
    {
        self.write_history.contains_key(key)
    }

    /// Checks whether a write to `key` at instant `now` is allowed.
    ///
    /// Entries outside the window are evicted; an allowed write is recorded
    /// at `now`, a denied one is not, and the denial reports the delay in
    /// milliseconds after which the oldest live entry leaves the window.
    pub fn check_rate_limit_at(&mut self, key: &str, now: u64) -> (r: Result<(), u64>)
        requires
            old(self).wf(),
            now <= u64::MAX - 1000,
        ensures
            final(self).wf(),
            final(self).max() == old(self).max(),
            final(self).window() == old(self).window(),
            final(self).history() == spec_after_check(
                old(self).history(),
                key@,
                now,
                old(self).window(),
                old(self).max(),
            ),
            r is Ok <==> spec_check_allowed(
                old(self).history(),
                key@,
                now,
                old(self).window(),
                old(self).max(),
            ),
            r matches Err(d) ==> d as int == spec_retry_ms(
                old(self).history(),
                key@,
                now,
                old(self).window(),
            ) && d > 0,
    {
        let ghost h0 = old(self).history();
        let ghost entries0 = spec_entries(h0, key@);
        let cutoff = if now >= self.window_ms {
            now - self.window_ms
        } else {
            0
        };
        proof {
            assert(cutoff == spec_cutoff(now, self.window_ms));
        }
        let had_key = self.write_history.contains_key(key);
        let trimmed: Vec<u64> = match self.write_history.get(key) {
            Some(v) => filter_live(v, cutoff),
            None => Vec::new(),
        };
        proof {
            assert(h0.contains_key(key@) == self.write_history@.contains_key(key@));
            if h0.contains_key(key@) {
                assert(h0[key@] == self.write_history@[key@]@);
            } else {
                reveal(Seq::filter);
                assert(trimmed@ =~= spec_live(entries0, cutoff));
            }
            assert(trimmed@ == spec_live(entries0, cutoff));
            lemma_spec_live_elems(entries0, cutoff);
        }
        if trimmed.len() >= self.max_writes_per_second as usize && trimmed.len() > 0 {
            let oldest = trimmed[0];
            proof {
                assert(entries0.contains(oldest));
                assert(h0.contains_key(key@));
                let j = choose|j: int| 0 <= j < entries0.len() && entries0[j] == oldest;
                assert(oldest <= u64::MAX - 1000);
            }
            let retry = oldest + self.window_ms - now;
            self.write_history.insert(key.to_owned(), trimmed);
            if !had_key {
                self.keys.push(key.to_owned());
            }
            proof {
                assert(self.history() =~= h0.insert(key@, spec_live(entries0, cutoff)));
                if !h0.contains_key(key@) {
                    assert(self.keys@.subrange(0, old(self).keys@.len() as int) =~= old(
                        self,
                    ).keys@);
                }
                assert(self.history().dom() =~= h0.dom().insert(key@));
                lemma_index_insert(old(self).keys@, self.keys@, h0, self.history(), key@);
                assert(self.wf());
            }
            return Err(retry);
        }
        let mut recorded = trimmed;
        recorded.push(now);
        self.write_history.insert(key.to_owned(), recorded);
        if !had_key {
            self.keys.push(key.to_owned());
        }
        proof {
            assert(self.history() =~= h0.insert(key@, spec_live(entries0, cutoff).push(now)));
            if !h0.contains_key(key@) {
                assert(self.keys@.subrange(0, old(self).keys@.len() as int) =~= old(self).keys@);
            }
            assert(self.history().dom() =~= h0.dom().insert(key@));
            lemma_index_insert(old(self).keys@, self.keys@, h0, self.history(), key@);
            assert(self.wf());
        }
        Ok(())
    }

    /// Checks whether a write to `key` is allowed now, against the wall
    /// clock, recording the attempt when it is allowed. A denial carries
    /// the retry delay in milliseconds.
    pub fn check_rate_limit(&mut self, key: &str) -> (r: Result<(), u64>)
        requires
            old(self).wf(),
        ensures
            final(self).wf(),
            final(self).max() == old(self).max(),
            final(self).window() == old(self).window(),
            exists|now: u64|
                {
                    &&& now <= u64::MAX - 1000
                    &&& final(self).history() == spec_after_check(
                        old(self).history(),
                        key@,
                        now,
                        old(self).window(),
                        old(self).max(),
                    )
                    &&& (r is Ok <==> spec_check_allowed(
                        old(self).history(),
                        key@,
                        now,
                        old(self).window(),
                        old(self).max(),
                    ))
                    &&& (r matches Err(d) ==> d as int == spec_retry_ms(
                        old(self).history(),
                        key@,
                        now,
                        old(self).window(),
                    ) && d > 0)
                },
    {
        let now = now_millis();
        self.check_rate_limit_at(key, now)
    }

    /// Drops every recorded timestamp older than twice the window, measured
    /// from instant `now`, and forgets keys left with no timestamps at all.
    ///
    /// Pure memory hygiene: entries still inside twice the window are kept
    /// exactly as they were, so no check can observe a difference.
    #[verifier::rlimit(100)]
    pub fn cleanup_at(&mut self, now: u64)
        requires
            old(self).wf(),
        ensures
            final(self).wf(),
            final(self).max() == old(self).max(),
            final(self).window() == old(self).window(),
            final(self).history() == spec_after_cleanup(
                old(self).history(),
                now,
                old(self).window(),
            ),
    {
        let ghost h0 = old(self).history();
        let ghost w = old(self).window();
        let w2 = self.window_ms * 2;
        let cutoff = if now >= w2 {
            now - w2
        } else {
            0
        };
        proof {
            assert(cutoff == spec_cutoff2(now, w));
        }
        let mut kept: Vec<String> = Vec::new();
        let n = self.keys.len();
        for i in 0..n
            invariant
                self.window_ms == old(self).window_ms,
                self.max_writes_per_second == old(self).max_writes_per_second,
                self.keys@ == old(self).keys@,
                n == self.keys@.len(),
                cutoff == spec_cutoff2(now, old(self).window()),
                h0 == old(self).history(),
                forall|a: int, b: int|
                    0 <= a < b < n ==> self.keys@[a]@ != self.keys@[b]@,
                forall|j: int| 0 <= j < n ==> h0.contains_key((#[trigger] self.keys@[j])@),
                forall|k: Seq<char>|
                    #[trigger] h0.contains_key(k) ==> exists|j: int|
                        0 <= j < n && self.keys@[j]@ == k,
                forall|k: Seq<char>|
                    #[trigger] h0.contains_key(k) ==> h0[k].len() > 0 && (forall|t: int|
                        0 <= t < h0[k].len() ==> #[trigger] h0[k][t] <= u64::MAX - 1000),
                forall|j: int|
                    0 <= j < i ==> cleaned_one(self.history(), h0, (#[trigger] self.keys@[j])@, cutoff),
                forall|j: int|
                    i <= j < n ==> self.history().contains_key((#[trigger] self.keys@[j])@)
                        && self.history()[self.keys@[j]@] == h0[self.keys@[j]@],
                forall|k: Seq<char>|
                    #[trigger] self.history().contains_key(k) ==> h0.contains_key(k),
                kept@ == kept_of(self.keys@.subrange(0, i as int), h0, cutoff),
        {
            let ghost cur0 = self.history();
            let ghost kept0 = kept@;
            let key_i: &String = &self.keys[i];
            let ghost kv = key_i@;
            let trimmed: Vec<u64> = match self.write_history.get(key_i.as_str()) {
                Some(v) => filter_live(v, cutoff),
                None => Vec::new(),
            };
            proof {
                assert(cur0.contains_key(kv));
                assert(cur0[kv] == self.write_history@[kv]@);
                assert(trimmed@ == spec_live(h0[kv], cutoff));
            }
            if trimmed.len() == 0 {
                self.write_history.remove(key_i.as_str());
                proof {
                    assert(self.history() =~= cur0.remove(kv));
                    lemma_cleanup_step(cur0, self.history(), h0, self.keys@, i as int, cutoff);
                    reveal(Seq::filter);
                    let pre = self.keys@.subrange(0, i as int);
                    let post = self.keys@.subrange(0, i as int + 1);
                    assert(post.drop_last() =~= pre);
                    assert(post.last() == self.keys@[i as int]);
                    assert(!(live_key(h0, cutoff)(post.last())));
                    assert(kept@ == kept_of(post, h0, cutoff));
                }
            } else {
                let owned = key_i.clone();
                kept.push(owned.clone());
                self.write_history.insert(owned, trimmed);
                proof {
                    assert(self.history() =~= cur0.insert(kv, trimmed@));
                    lemma_cleanup_step(cur0, self.history(), h0, self.keys@, i as int, cutoff);
                    reveal(Seq::filter);
                    let pre = self.keys@.subrange(0, i as int);
                    let post = self.keys@.subrange(0, i as int + 1);
                    assert(post.drop_last() =~= pre);
                    assert(post.last() == self.keys@[i as int]);
                    assert(live_key(h0, cutoff)(post.last()));
                    assert(kept@ =~= kept0.push(self.keys@[i as int]));
                    assert(kept@ =~= kept_of(post, h0, cutoff));
                }
            }
        }
        proof {
            let target = spec_after_cleanup(h0, now, w);
            assert forall|k: Seq<char>| #[trigger]
                self.history().contains_key(k) implies target.contains_key(k)
                && self.history()[k] == target[k] by {
                assert(h0.contains_key(k));
                let j = choose|j: int| 0 <= j < n && old(self).keys@[j]@ == k;
                assert(cleaned_one(self.history(), h0, k, cutoff));
                assert(spec_live(h0[k], cutoff).len() > 0);
            }
            assert forall|k: Seq<char>| #[trigger]
                target.contains_key(k) implies self.history().contains_key(k) by {
                let j = choose|j: int| 0 <= j < n && old(self).keys@[j]@ == k;
                assert(cleaned_one(self.history(), h0, k, cutoff));
            }
            assert(self.history() =~= target);
        }
        self.keys = kept;
        proof {
            let target = spec_after_cleanup(h0, now, w);
            let keys0 = old(self).keys@;
            let pred = live_key(h0, cutoff);
            assert(keys0.subrange(0, n as int) =~= keys0);
            assert(self.keys@ == keys0.filter(pred));
            assert(self.history() == target);
            lemma_filter_nodup(keys0, pred);
            broadcast use vstd::seq_lib::group_filter_ensures;

            assert forall|k: Seq<char>| #[trigger]
                target.contains_key(k) implies target[k].len() > 0 && (forall|t: int|
                0 <= t < target[k].len() ==> #[trigger] target[k][t] <= u64::MAX - 1000) by {
                assert(h0.contains_key(k));
                lemma_spec_live_elems(h0[k], cutoff);
                assert(target[k] == spec_live(h0[k], cutoff));
                assert forall|t: int|
                    0 <= t < target[k].len() implies #[trigger] target[k][t] <= u64::MAX
                    - 1000 by {
                    assert(h0[k].contains(spec_live(h0[k], cutoff)[t]));
                    let u = choose|u: int|
                        0 <= u < h0[k].len() && h0[k][u] == spec_live(h0[k], cutoff)[t];
                }
            }
            assert forall|a: int|
                0 <= a < self.keys@.len() implies target.contains_key(
                (#[trigger] self.keys@[a])@,
            ) by {
                assert(keys0.filter(pred).contains(keys0.filter(pred)[a]));
                keys0.lemma_filter_contains_rev(pred, keys0.filter(pred)[a]);
                let j = choose|j: int| 0 <= j < n && keys0[j] == keys0.filter(pred)[a];
                assert(h0.contains_key(keys0[j]@));
                assert(pred(keys0.filter(pred)[a]));
            }
            assert forall|k: Seq<char>| #[trigger]
                target.contains_key(k) implies exists|a: int|
                0 <= a < self.keys@.len() && self.keys@[a]@ == k by {
                assert(h0.contains_key(k));
                let j = choose|j: int| 0 <= j < n && keys0[j]@ == k;
                assert(spec_live(h0[k], cutoff).len() > 0);
                assert(pred(keys0[j]));
                assert(keys0.filter(pred).contains(keys0[j]));
                let a = choose|a: int|
                    0 <= a < keys0.filter(pred).len() && keys0.filter(pred)[a] == keys0[j];
                assert(self.keys@[a]@ == k);
            }
            assert(self.wf());
        }
    }

    /// Drops every recorded timestamp older than twice the window, measured
    /// from the wall clock now, and forgets keys left with no timestamps.
    pub fn cleanup(&mut self)
        requires
            old(self).wf(),
        ensures
            final(self).wf(),
            final(self).max() == old(self).max(),
            final(self).window() == old(self).window(),
            exists|now: u64|
                final(self).history() == spec_after_cleanup(
                    old(self).history(),
                    now,
                    old(self).window(),
                ),
    {
        let now = now_millis();
        self.cleanup_at(now);
    }
}

/// On a limiter with no recorded history, a check is allowed for every key,
/// at every instant, whenever the capacity is at least one.
pub proof fn lemma_first_check_allowed(key: Seq<char>, now: u64, window: u64, max: u32)
    requires
        max >= 1,
    ensures
        spec_check_allowed(Map::<Seq<char>, Seq<u64>>::empty(), key, now, window, max),
{
    reveal_with_fuel(Seq::filter, 2);
    assert(spec_entries(Map::<Seq<char>, Seq<u64>>::empty(), key) =~= Seq::<u64>::empty());
    assert(spec_live(Seq::<u64>::empty(), spec_cutoff(now, window)) =~= Seq::<u64>::empty());
}

/// After an allowed write for a key at capacity one, a second check for the
/// same key within one window is denied, with a retry delay that is
/// positive and at most one window.
///
/// The first instant must be at least one millisecond after the epoch: a
/// write recorded at instant zero sits on the saturated eviction cutoff and
/// no longer counts.
pub proof fn lemma_second_check_denied(
    h0: Map<Seq<char>, Seq<u64>>,
    key: Seq<char>,
    now1: u64,
    now2: u64,
    window: u64,
)
    requires
        1 <= now1 <= now2,
        now2 - now1 < window,
        spec_check_allowed(h0, key, now1, window, 1),
    ensures
        !spec_check_allowed(spec_after_check(h0, key, now1, window, 1), key, now2, window, 1),
        0 < spec_retry_ms(spec_after_check(h0, key, now1, window, 1), key, now2, window)
            <= window,
{
    reveal_with_fuel(Seq::filter, 3);
    let h1 = spec_after_check(h0, key, now1, window, 1);
    let live1 = spec_live(spec_entries(h0, key), spec_cutoff(now1, window));
    assert(live1.len() == 0);
    assert(live1 =~= Seq::<u64>::empty());
    assert(h1[key] =~= seq![now1]);
    assert(now1 > spec_cutoff(now2, window));
    assert(seq![now1].drop_last() =~= Seq::<u64>::empty());
    assert(spec_live(h1[key], spec_cutoff(now2, window)) =~= seq![now1]);
}

/// Distinct keys never interact: a check for one key leaves another key's
/// recorded history, and with it the outcome and retry delay of that key's
/// next check, unchanged.
pub proof fn lemma_keys_independent(
    h0: Map<Seq<char>, Seq<u64>>,
    key1: Seq<char>,
    key2: Seq<char>,
    now1: u64,
    now2: u64,
    window: u64,
    max: u32,
)
    requires
        key1 != key2,
    ensures
        spec_entries(spec_after_check(h0, key1, now1, window, max), key2) == spec_entries(
            h0,
            key2,
        ),
        spec_check_allowed(spec_after_check(h0, key1, now1, window, max), key2, now2, window, max)
            == spec_check_allowed(h0, key2, now2, window, max),
        spec_retry_ms(spec_after_check(h0, key1, now1, window, max), key2, now2, window)
            == spec_retry_ms(h0, key2, now2, window),
{
}

/// A cleanup pass never discards a timestamp still inside twice the
/// window: such an entry is retained under its key.
pub proof fn lemma_cleanup_keeps_recent(
    h: Map<Seq<char>, Seq<u64>>,
    now: u64,
    window: u64,
    key: Seq<char>,
    i: int,
)
    requires
        h.contains_key(key),
        0 <= i < h[key].len(),
        h[key][i] > spec_cutoff2(now, window),
    ensures
        spec_after_cleanup(h, now, window).contains_key(key),
        spec_after_cleanup(h, now, window)[key].contains(h[key][i]),
{
    lemma_spec_live_keeps(h[key], spec_cutoff2(now, window), i);
    let live = spec_live(h[key], spec_cutoff2(now, window));
    let j = choose|j: int| 0 <= j < live.len() && live[j] == h[key][i];
    assert(live.len() > 0);
}

/// Trimming against a lower cutoff first does not change what a higher
/// cutoff keeps.
proof fn lemma_live_after_live(e: Seq<u64>, c2: u64, c1: u64)
    requires
        c2 <= c1,
    ensures
        spec_live(spec_live(e, c2), c1) =~= spec_live(e, c1),
    decreases e.len(),
{
    reveal(Seq::filter);
    if e.len() > 0 {
        let el = e.drop_last();
        lemma_live_after_live(el, c2, c1);
        if e.last() > c2 {
            assert(spec_live(e, c2) =~= spec_live(el, c2).push(e.last()));
            assert(spec_live(el, c2).push(e.last()).drop_last() =~= spec_live(el, c2));
        } else {
            assert(spec_live(e, c2) =~= spec_live(el, c2));
        }
    }
}

/// A cleanup pass is invisible to the checks that follow at the same or a
/// later instant: the live entries, and with them the outcome and retry
/// delay of a check, are exactly what they would have been without it.
pub proof fn lemma_cleanup_preserves_check(
    h: Map<Seq<char>, Seq<u64>>,
    key: Seq<char>,
    now_c: u64,
    now: u64,
    window: u64,
    max: u32,
)
    requires
        now_c <= now,
    ensures
        spec_live(
            spec_entries(spec_after_cleanup(h, now_c, window), key),
            spec_cutoff(now, window),
        ) == spec_live(spec_entries(h, key), spec_cutoff(now, window)),
        spec_check_allowed(spec_after_cleanup(h, now_c, window), key, now, window, max)
            == spec_check_allowed(h, key, now, window, max),
        spec_retry_ms(spec_after_cleanup(h, now_c, window), key, now, window) == spec_retry_ms(
            h,
            key,
            now,
            window,
        ),
{
    reveal(Seq::filter);
    let c2 = spec_cutoff2(now_c, window);
    let c1 = spec_cutoff(now, window);
    assert(c2 <= c1);
    let h1 = spec_after_cleanup(h, now_c, window);
    if h.contains_key(key) {
        lemma_live_after_live(h[key], c2, c1);
        if h1.contains_key(key) {
            assert(h1[key] == spec_live(h[key], c2));
        } else {
            assert(spec_live(h[key], c2).len() == 0);
            lemma_live_after_live(h[key], c2, c1);
            assert(spec_live(spec_live(h[key], c2), c1) =~= Seq::<u64>::empty());
            assert(spec_entries(h1, key) =~= Seq::<u64>::empty());
            assert(spec_live(Seq::<u64>::empty(), c1) =~= Seq::<u64>::empty());
        }
    } else {
        assert(!h1.contains_key(key));
    }
}

/// A cleanup pass is idempotent: running it again at the same instant
/// changes nothing, so repeated cleanup is always safe.
pub proof fn lemma_cleanup_idempotent(h: Map<Seq<char>, Seq<u64>>, now: u64, window: u64)
    ensures
        spec_after_cleanup(spec_after_cleanup(h, now, window), now, window) == spec_after_cleanup(
            h,
            now,
            window,
        ),
{
    let c = spec_cutoff2(now, window);
    let h1 = spec_after_cleanup(h, now, window);
    assert forall|k: Seq<char>| #[trigger] h1.contains_key(k) implies spec_live(h1[k], c)
        =~= h1[k] by {
        lemma_spec_live_elems(h[k], c);
        assert(h1[k] == spec_live(h[k], c));
        lemma_filter_all_live(h1[k], c);
    }
    assert(spec_after_cleanup(h1, now, window) =~= h1);
}

} // verus!
