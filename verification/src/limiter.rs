//! Sliding-window rate limiters and the nonce store that guards against
//! replayed authentications.
//!
//! Time is a millisecond count handed in by the caller. Every check sweeps
//! the entries that lie outside the window wherever they sit, so the
//! limiters stay correct even if the clock reading steps backwards.

use vstd::prelude::*;

use crate::collections::{lemma_map_of_pairs_at, lemma_map_of_pairs_membership, map_of_pairs};
use crate::strutil::str_eq;

verus! {

/// Width of the rate-limit window, in milliseconds.
pub const RATE_WINDOW_MS: i64 = 60_000;

/// Default per-user message limit per window.
pub const DEFAULT_MAX_MESSAGES_PER_MINUTE: usize = 30;

/// Default per-IP authentication attempt limit per window.
pub const DEFAULT_MAX_AUTH_ATTEMPTS_PER_MINUTE: usize = 5;

/// Default nonce lifetime, in seconds.
pub const DEFAULT_NONCE_EXPIRY_SECONDS: u64 = 300;

/// The entries still inside the window: those at or after `cutoff`, in
/// stored order.
pub open spec fn live_times(s: Seq<i64>, cutoff: int) -> Seq<i64>
    decreases s.len(),
{
    if s.len() == 0 {
        s
    } else if s.last() >= cutoff {
        live_times(s.drop_last(), cutoff).push(s.last())
    } else {
        live_times(s.drop_last(), cutoff)
    }
}

/// Every entry of the live window lies at or after the cutoff.
proof fn lemma_live_in_window(s: Seq<i64>, cutoff: int)
    ensures
        forall|i: int|
            0 <= i < live_times(s, cutoff).len() ==> #[trigger] live_times(s, cutoff)[i] >= cutoff,
    decreases s.len(),
{
    if s.len() > 0 {
        lemma_live_in_window(s.drop_last(), cutoff);
        if s.last() >= cutoff {
            assert forall|i: int|
                0 <= i < live_times(s, cutoff).len() implies #[trigger] live_times(s, cutoff)[i]
                >= cutoff by {
                if i < live_times(s, cutoff).len() - 1 {
                    assert(live_times(s, cutoff)[i] == live_times(s.drop_last(), cutoff)[i]);
                }
            }
        }
    }
}

/// A sequence already inside the window is kept whole.
proof fn lemma_live_id(s: Seq<i64>, cutoff: int)
    requires
        forall|i: int| 0 <= i < s.len() ==> #[trigger] s[i] >= cutoff,
    ensures
        live_times(s, cutoff) == s,
    decreases s.len(),
{
    if s.len() > 0 {
        lemma_live_id(s.drop_last(), cutoff);
        assert(live_times(s.drop_last(), cutoff).push(s.last()) =~= s);
    }
}

/// If every entry is stale, the live window is empty.
///
/// This is the idleness half of the rate-limit law: sixty seconds after the
/// last event, the window holds nothing.
pub proof fn lemma_window_empties(s: Seq<i64>, cutoff: int)
    requires
        forall|j: int| 0 <= j < s.len() ==> s[j] < cutoff,
    ensures
        live_times(s, cutoff).len() == 0,
    decreases s.len(),
{
    if s.len() > 0 {
        lemma_window_empties(s.drop_last(), cutoff);
    }
}

/// One sliding window of event times, in milliseconds, in arrival order.
pub struct SlidingWindow {
    times: Vec<i64>,
}

impl SlidingWindow {
    /// The recorded times.
    pub closed spec fn times(&self) -> Seq<i64> {
        self.times@
    }

    /// Whether the next event is allowed: fewer than `limit` events remain
    /// in the window ending at `now`.
    pub open spec fn spec_allowed(&self, now: i64, limit: usize) -> bool {
        live_times(self.times(), now - RATE_WINDOW_MS).len() < limit as int
    }

    pub fn new() -> (r: SlidingWindow)
        ensures
            r.times() == Seq::<i64>::empty(),
    {
        SlidingWindow { times: Vec::new() }
    }

    /// Drop events older than the window, then allow and record the event
    /// if fewer than `limit` remain.
    pub fn check_and_record(&mut self, now: i64, limit: usize) -> (allowed: bool)
        ensures
            allowed == old(self).spec_allowed(now, limit),
            allowed ==> final(self).times() == live_times(
                old(self).times(),
                now - RATE_WINDOW_MS,
            ).push(now),
            !allowed ==> final(self).times() == live_times(old(self).times(), now - RATE_WINDOW_MS),
    {
        // Widen so the cutoff cannot overflow whatever `now` is.
        let cutoff = now as i128 - RATE_WINDOW_MS as i128;
        let ghost orig = self.times@;
        let n = self.times.len();
        let mut kept: Vec<i64> = Vec::new();
        for i in 0..n
            invariant
                cutoff == now as i128 - RATE_WINDOW_MS as i128,
                self.times@ == orig,
                n == orig.len(),
                kept@ == live_times(orig.subrange(0, i as int), now - RATE_WINDOW_MS),
        {
            proof {
                assert(orig.subrange(0, i + 1).drop_last() =~= orig.subrange(0, i as int));
            }
            let t = self.times[i];
            if t as i128 >= cutoff {
                proof {
                    assert((t as int) >= now - RATE_WINDOW_MS);
                    assert(orig.subrange(0, i + 1).last() == orig[i as int]);
                }
                kept.push(t);
                proof {
                    assert(kept@.drop_last() =~= live_times(
                        orig.subrange(0, i as int),
                        now - RATE_WINDOW_MS,
                    ));
                    assert(kept@.last() == orig.subrange(0, i + 1).last());
                    assert(kept@ =~= live_times(orig.subrange(0, i + 1), now - RATE_WINDOW_MS));
                }
            } else {
                proof {
                    assert((t as int) < now - RATE_WINDOW_MS);
                    assert(orig.subrange(0, i + 1).last() == orig[i as int]);
                }
            }
        }
        proof {
            assert(orig.subrange(0, n as int) =~= orig);
        }
        let allowed = kept.len() < limit;
        if allowed {
            kept.push(now);
        }
        self.times = kept;
        allowed
    }
}

/// Sliding windows keyed by user or address.
pub struct KeyedWindows {
    windows: Vec<(String, SlidingWindow)>,
}

/// The window under a key of a keyed map; empty when the key is absent.
pub open spec fn times_under(m: Map<Seq<char>, SlidingWindow>, k: Seq<char>) -> Seq<i64> {
    if m.contains_key(k) {
        m[k].times()
    } else {
        Seq::empty()
    }
}

impl KeyedWindows {
    /// The abstract map of windows.
    pub closed spec fn view(&self) -> Map<Seq<char>, SlidingWindow> {
        map_of_pairs(self.windows@)
    }

    /// Keys are unique.
    pub closed spec fn wf(&self) -> bool {
        forall|i: int, j: int|
            0 <= i < j < self.windows@.len() ==> self.windows@[i].0@ != self.windows@[j].0@
    }

    /// Whether the next event under this key is allowed.
    pub open spec fn spec_allowed(&self, k: Seq<char>, now: i64, limit: usize) -> bool {
        live_times(times_under(self@, k), now - RATE_WINDOW_MS).len() < limit as int
    }

    pub fn new() -> (r: KeyedWindows)
        ensures
            r.wf(),
            r@ == Map::<Seq<char>, SlidingWindow>::empty(),
    {
        KeyedWindows { windows: Vec::new() }
    }

    /// Check and record an event under a key.
    pub fn check_and_record(&mut self, k: &str, now: i64, limit: usize) -> (allowed: bool)
        requires
            old(self).wf(),
        ensures
            final(self).wf(),
            allowed == old(self).spec_allowed(k@, now, limit),
            times_under(final(self)@, k@) == (if allowed {
                live_times(times_under(old(self)@, k@), now - RATE_WINDOW_MS).push(now)
            } else {
                live_times(times_under(old(self)@, k@), now - RATE_WINDOW_MS)
            }),
            forall|k2: Seq<char>|
                k2 != k@ ==> times_under(final(self)@, k2) == times_under(old(self)@, k2),
    {
        let n = self.windows.len();
        let ghost orig = self.windows@;
        let mut found: Option<usize> = None;
        for i in 0..n
            invariant
                self.windows@ == orig,
                n == orig.len(),
                match found {
                    Some(fi) => fi < n && orig[fi as int].0@ == k@,
                    None => forall|j: int| 0 <= j < i ==> orig[j].0@ != k@,
                },
        {
            if found.is_none() && str_eq(self.windows[i].0.as_str(), k) {
                found = Some(i);
            }
        }
        match found {
            Some(i) => {
                let mut pair = self.windows.remove(i);
                proof {
                    lemma_map_of_pairs_at(orig, i as int);
                }
                let allowed = pair.1.check_and_record(now, limit);
                self.windows.insert(i, pair);
                proof {
                    assert forall|j: int| 0 <= j < orig.len() && j != i implies self.windows@[j]
                        == orig[j] by {
                        if j < i {
                            assert(orig.remove(i as int)[j] == orig[j]);
                        } else {
                            assert(orig.remove(i as int)[j - 1] == orig[j]);
                        }
                    }
                    crate::collections::lemma_pair_update(
                        orig,
                        i as int,
                        k@,
                        self.windows@[i as int].1,
                        self.windows@,
                    );
                }
                allowed
            },
            None => {
                let mut w = SlidingWindow::new();
                let allowed = w.check_and_record(now, limit);
                self.windows.push((k.to_owned(), w));
                proof {
                    lemma_map_of_pairs_membership(orig, k@);
                    assert(self.windows@.drop_last() =~= orig);
                    assert forall|p: int, q: int|
                        0 <= p < q < self.windows@.len() implies self.windows@[p].0@
                        != self.windows@[q].0@ by {
                        if q == self.windows@.len() - 1 {
                            assert(self.windows@[p].0@ == orig[p].0@);
                        }
                    }
                    assert(live_times(Seq::<i64>::empty(), now - RATE_WINDOW_MS)
                        =~= Seq::<i64>::empty());
                    assert forall|k2: Seq<char>| k2 != k@ implies times_under(self@, k2)
                        == times_under(map_of_pairs(orig), k2) by {
                        lemma_map_of_pairs_membership(self.windows@, k2);
                        lemma_map_of_pairs_membership(orig, k2);
                        if map_of_pairs(orig).contains_key(k2) {
                            let j = choose|j: int| 0 <= j < orig.len() && orig[j].0@ == k2;
                            lemma_map_of_pairs_at(orig, j);
                            lemma_map_of_pairs_at(self.windows@, j);
                        } else {
                            if map_of_pairs(self.windows@).contains_key(k2) {
                                let j = choose|j: int|
                                    0 <= j < self.windows@.len() && self.windows@[j].0@ == k2;
                                assert(j != self.windows@.len() - 1);
                                assert(orig[j].0@ == k2);
                                assert(false);
                            }
                        }
                    }
                }
                allowed
            },
        }
    }
}

/// A nonce map restricted to entries still alive at `cutoff`.
pub open spec fn live_nonces(m: Map<Seq<char>, i64>, cutoff: int) -> Map<Seq<char>, i64> {
    Map::new(|k: Seq<char>| m.contains_key(k) && m[k] > cutoff, |k: Seq<char>| m[k])
}

/// A nonce is fresh when it is absent from the live entries.
pub open spec fn spec_nonce_fresh(m: Map<Seq<char>, i64>, nonce: Seq<char>, cutoff: int) -> bool {
    !(m.contains_key(nonce) && m[nonce] > cutoff)
}

/// The entries of an association list whose time is after `cutoff`, in order.
pub open spec fn swept(s: Seq<(String, i64)>, cutoff: int) -> Seq<(String, i64)>
    decreases s.len(),
{
    if s.len() == 0 {
        s
    } else if s.last().1 > cutoff {
        swept(s.drop_last(), cutoff).push(s.last())
    } else {
        swept(s.drop_last(), cutoff)
    }
}

/// Sweeping a duplicate-free list computes the live restriction of its map.
proof fn lemma_swept_map(s: Seq<(String, i64)>, cutoff: int)
    requires
        forall|p: int, q: int| 0 <= p < q < s.len() ==> s[p].0@ != s[q].0@,
    ensures
        map_of_pairs(swept(s, cutoff)) == live_nonces(map_of_pairs(s), cutoff),
        forall|p: int, q: int|
            0 <= p < q < swept(s, cutoff).len() ==> swept(s, cutoff)[p].0@ != swept(
                s,
                cutoff,
            )[q].0@,
    decreases s.len(),
{
    if s.len() == 0 {
        assert(map_of_pairs(swept(s, cutoff)) =~= live_nonces(map_of_pairs(s), cutoff));
    } else {
        let t = s.drop_last();
        let last = s.last();
        lemma_swept_map(t, cutoff);
        lemma_map_of_pairs_membership(t, last.0@);
        assert(!map_of_pairs(t).contains_key(last.0@));
        if last.1 > cutoff {
            let w = swept(t, cutoff).push(last);
            assert(w.drop_last() =~= swept(t, cutoff));
            assert forall|p: int, q: int|
                0 <= p < q < w.len() implies w[p].0@ != w[q].0@ by {
                if q == w.len() - 1 {
                    if w[p].0@ == last.0@ {
                        lemma_map_of_pairs_membership(swept(t, cutoff), last.0@);
                        assert(map_of_pairs(swept(t, cutoff)).contains_key(last.0@));
                        assert(false);
                    }
                }
            }
            assert(map_of_pairs(w) =~= live_nonces(map_of_pairs(s), cutoff));
        } else {
            assert(map_of_pairs(swept(t, cutoff)) =~= live_nonces(map_of_pairs(s), cutoff));
        }
    }
}

/// Stored nonces and the time each was first seen.
pub struct NonceStore {
    entries: Vec<(String, i64)>,
}

impl NonceStore {
    /// The abstract nonce map.
    pub closed spec fn view(&self) -> Map<Seq<char>, i64> {
        map_of_pairs(self.entries@)
    }

    /// Nonces are unique.
    pub closed spec fn wf(&self) -> bool {
        forall|p: int, q: int|
            0 <= p < q < self.entries@.len() ==> self.entries@[p].0@ != self.entries@[q].0@
    }

    pub fn new() -> (r: NonceStore)
        ensures
            r.wf(),
            r@ == Map::<Seq<char>, i64>::empty(),
    {
        NonceStore { entries: Vec::new() }
    }

    /// Evict expired nonces, then accept the nonce only if it is not
    /// already stored; an accepted nonce is recorded with time `now`.
    pub fn check_and_store(&mut self, nonce: &str, now: i64, expiry_ms: i64) -> (fresh: bool)
        requires
            old(self).wf(),
        ensures
            final(self).wf(),
            fresh == spec_nonce_fresh(old(self)@, nonce@, now - expiry_ms),
            fresh ==> final(self)@ == live_nonces(old(self)@, now - expiry_ms).insert(nonce@, now),
            !fresh ==> final(self)@ == live_nonces(old(self)@, now - expiry_ms),
    {
        // Widen so the cutoff cannot overflow whatever `now` is.
        let cutoff = now as i128 - expiry_ms as i128;
        let ghost orig = self.entries@;
        let n = self.entries.len();
        let mut kept: Vec<(String, i64)> = Vec::new();
        for i in 0..n
            invariant
                cutoff == now as i128 - expiry_ms as i128,
                self.entries@ == orig,
                n == orig.len(),
                kept@ == swept(orig.subrange(0, i as int), now - expiry_ms),
        {
            proof {
                assert(orig.subrange(0, i + 1).drop_last() =~= orig.subrange(0, i as int));
            }
            let t = self.entries[i].1;
            if t as i128 > cutoff {
                proof {
                    assert((t as int) > now - expiry_ms);
                    assert(orig.subrange(0, i + 1).last() == orig[i as int]);
                }
                let key = self.entries[i].0.clone();
                kept.push((key, t));
                proof {
                    assert(kept@.drop_last() =~= swept(
                        orig.subrange(0, i as int),
                        now - expiry_ms,
                    ));
                    assert(kept@.last().0@ == orig.subrange(0, i + 1).last().0@);
                    assert(kept@.last().1 == orig.subrange(0, i + 1).last().1);
                    assert(kept@ =~= swept(orig.subrange(0, i + 1), now - expiry_ms));
                }
            } else {
                proof {
                    assert((t as int) <= now - expiry_ms);
                    assert(orig.subrange(0, i + 1).last() == orig[i as int]);
                }
            }
        }
        proof {
            assert(orig.subrange(0, n as int) =~= orig);
            lemma_swept_map(orig, now - expiry_ms);
        }
        self.entries = kept;
        // Probe for the nonce among the live entries.
        let m = self.entries.len();
        let mut present = false;
        for i in 0..m
            invariant
                self.entries@ == swept(orig, now - expiry_ms),
                m == self.entries@.len(),
                present <==> exists|j: int| 0 <= j < i && self.entries@[j].0@ == nonce@,
        {
            if str_eq(self.entries[i].0.as_str(), nonce) {
                proof {
                    assert(self.entries@[i as int].0@ == nonce@);
                }
                present = true;
            }
        }
        proof {
            lemma_map_of_pairs_membership(self.entries@, nonce@);
            lemma_swept_map(orig, now - expiry_ms);
        }
        if present {
            return false;
        }
        let ghost pre = self.entries@;
        self.entries.push((nonce.to_owned(), now));
        proof {
            assert(self.entries@.drop_last() =~= pre);
            lemma_map_of_pairs_membership(pre, nonce@);
            assert forall|p: int, q: int|
                0 <= p < q < self.entries@.len() implies self.entries@[p].0@
                != self.entries@[q].0@ by {
                if q == self.entries@.len() - 1 {
                    assert(self.entries@[p].0@ == pre[p].0@);
                }
            }
        }
        true
    }
}

/// The same nonce authenticates at most once within the expiry window, and
/// may authenticate again once it has expired.
pub proof fn lemma_nonce_idempotence(
    m: Map<Seq<char>, i64>,
    nonce: Seq<char>,
    t1: i64,
    t2: i64,
    expiry_ms: i64,
)
    requires
        spec_nonce_fresh(m, nonce, t1 - expiry_ms),
    ensures
        t2 - expiry_ms < t1 ==> !spec_nonce_fresh(
            live_nonces(m, t1 - expiry_ms).insert(nonce, t1),
            nonce,
            t2 - expiry_ms,
        ),
        t2 - expiry_ms >= t1 ==> spec_nonce_fresh(
            live_nonces(m, t1 - expiry_ms).insert(nonce, t1),
            nonce,
            t2 - expiry_ms,
        ),
{
}

/// After `limit` events inside one window, the next event in that window
/// is rejected.
pub proof fn lemma_rate_limit_saturates(w: &SlidingWindow, now: i64, limit: usize)
    requires
        live_times(w.times(), now - RATE_WINDOW_MS).len() >= limit,
    ensures
        !w.spec_allowed(now, limit),
{
}

/// An allowed event enlarges the live window by exactly one entry: the
/// recorded sequence is live as a whole at the same cutoff.
pub proof fn lemma_live_grows(s: Seq<i64>, cutoff: int, now: i64)
    requires
        now >= cutoff,
    ensures
        live_times(live_times(s, cutoff).push(now), cutoff) == live_times(s, cutoff).push(now),
{
    let t = live_times(s, cutoff);
    lemma_live_in_window(s, cutoff);
    assert(t.push(now).drop_last() =~= t);
    lemma_live_id(t, cutoff);
}

/// Rate limiting state for authentication, messaging and nonce usage.
pub struct RateLimiter {
    /// Message event times per user.
    pub message_times: KeyedWindows,
    /// Authentication attempt times per address.
    pub auth_attempts: KeyedWindows,
    /// Nonces seen recently, with the time each was first seen.
    pub used_nonces: NonceStore,
}

impl RateLimiter {
    pub open spec fn wf(&self) -> bool {
        &&& self.message_times.wf()
        &&& self.auth_attempts.wf()
        &&& self.used_nonces.wf()
    }

    pub fn new() -> (r: RateLimiter)
        ensures
            r.wf(),
            r.message_times@ == Map::<Seq<char>, SlidingWindow>::empty(),
            r.auth_attempts@ == Map::<Seq<char>, SlidingWindow>::empty(),
            r.used_nonces@ == Map::<Seq<char>, i64>::empty(),
    {
        RateLimiter {
            message_times: KeyedWindows::new(),
            auth_attempts: KeyedWindows::new(),
            used_nonces: NonceStore::new(),
        }
    }
}

impl Default for RateLimiter {
    fn default() -> (r: RateLimiter)
        ensures
            r.wf(),
            r.message_times@ == Map::<Seq<char>, SlidingWindow>::empty(),
            r.auth_attempts@ == Map::<Seq<char>, SlidingWindow>::empty(),
            r.used_nonces@ == Map::<Seq<char>, i64>::empty(),
    {
        RateLimiter::new()
    }
}

/// Decide whether an address may attempt authentication now, recording the
/// attempt if so.
pub fn check_auth_rate_limit(
    rate_limiter: &mut RateLimiter,
    ip: &str,
    now: i64,
    limit: usize,
) -> (allowed: bool)
    requires
        old(rate_limiter).wf(),
    ensures
        final(rate_limiter).wf(),
        allowed == old(rate_limiter).auth_attempts.spec_allowed(ip@, now, limit),
        final(rate_limiter).message_times@ == old(rate_limiter).message_times@,
        final(rate_limiter).used_nonces@ == old(rate_limiter).used_nonces@,
        times_under(final(rate_limiter).auth_attempts@, ip@) == (if allowed {
            live_times(times_under(old(rate_limiter).auth_attempts@, ip@), now - RATE_WINDOW_MS).push(now)
        } else {
            live_times(times_under(old(rate_limiter).auth_attempts@, ip@), now - RATE_WINDOW_MS)
        }),
        forall|k2: Seq<char>|
            k2 != ip@ ==> times_under(final(rate_limiter).auth_attempts@, k2) == times_under(
                old(rate_limiter).auth_attempts@,
                k2,
            ),
{
    rate_limiter.auth_attempts.check_and_record(ip, now, limit)
}

/// Decide whether a user may send a message now, recording the message if so.
pub fn check_message_rate_limit(
    rate_limiter: &mut RateLimiter,
    user: &str,
    now: i64,
    limit: usize,
) -> (allowed: bool)
    requires
        old(rate_limiter).wf(),
    ensures
        final(rate_limiter).wf(),
        allowed == old(rate_limiter).message_times.spec_allowed(user@, now, limit),
        final(rate_limiter).auth_attempts@ == old(rate_limiter).auth_attempts@,
        final(rate_limiter).used_nonces@ == old(rate_limiter).used_nonces@,
        times_under(final(rate_limiter).message_times@, user@) == (if allowed {
            live_times(times_under(old(rate_limiter).message_times@, user@), now - RATE_WINDOW_MS).push(now)
        } else {
            live_times(times_under(old(rate_limiter).message_times@, user@), now - RATE_WINDOW_MS)
        }),
        forall|k2: Seq<char>|
            k2 != user@ ==> times_under(final(rate_limiter).message_times@, k2) == times_under(
                old(rate_limiter).message_times@,
                k2,
            ),
{
    rate_limiter.message_times.check_and_record(user, now, limit)
}

/// Check that a nonce was not seen within the expiry window and store it.
pub fn check_and_store_nonce(
    rate_limiter: &mut RateLimiter,
    nonce: &str,
    now: i64,
    expiry_ms: i64,
) -> (fresh: bool)
    requires
        old(rate_limiter).wf(),
    ensures
        final(rate_limiter).wf(),
        fresh == spec_nonce_fresh(old(rate_limiter).used_nonces@, nonce@, now - expiry_ms),
        fresh ==> final(rate_limiter).used_nonces@ == live_nonces(
            old(rate_limiter).used_nonces@,
            now - expiry_ms,
        ).insert(nonce@, now),
        !fresh ==> final(rate_limiter).used_nonces@ == live_nonces(
            old(rate_limiter).used_nonces@,
            now - expiry_ms,
        ),
        final(rate_limiter).message_times@ == old(rate_limiter).message_times@,
        final(rate_limiter).auth_attempts@ == old(rate_limiter).auth_attempts@,
{
    rate_limiter.used_nonces.check_and_store(nonce, now, expiry_ms)
}


} // verus!
