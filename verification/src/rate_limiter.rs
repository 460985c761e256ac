//! Rate limiting of package operations, per key and operation, over a
//! sliding minute and a sliding hour.
//!
//! Times are milliseconds on a monotonic clock.
use vstd::prelude::*;
use crate::text::{chars_of, has_prefix, occurs_at_exec, push_char};

verus! {

/// Length of the short window, in milliseconds.
pub const MINUTE_MS: u64 = 60_000;

/// Length of the long window, in milliseconds.
pub const HOUR_MS: u64 = 3_600_000;

/// How long after one clean-up the next is due, in milliseconds.
pub const CLEANUP_INTERVAL_MS: u64 = 300_000;

/// Time from `t` to `now`, zero where `t` is later.
pub open spec fn elapsed(t: u64, now: u64) -> int {
    if now >= t {
        now - t
    } else {
        0
    }
}

/// `t` lies within the last `w` milliseconds before `now`.
pub open spec fn within(t: u64, now: u64, w: u64) -> bool {
    elapsed(t, now) < w
}

/// The times of `ts` that lie within the window, in order.
pub open spec fn keep_within(ts: Seq<u64>, now: u64, w: u64) -> Seq<u64>
    decreases ts.len(),
{
    if ts.len() == 0 {
        ts
    } else {
        let p = keep_within(ts.drop_last(), now, w);
        if within(ts.last(), now, w) {
            p.push(ts.last())
        } else {
            p
        }
    }
}

/// How many times of `ts` lie within the window.
pub open spec fn count_within(ts: Seq<u64>, now: u64, w: u64) -> nat {
    keep_within(ts, now, w).len()
}

/// What a check at `now` decides from the counted times `h`: refused where
/// the hour's limit is reached, else where the minute's is, else allowed.
pub open spec fn limit_verdict(h: Seq<u64>, now: u64, per_minute: nat, per_hour: nat) -> Result<(), RateLimitError> {
    if h.len() >= per_hour {
        Err(RateLimitError::HourlyLimitExceeded)
    } else if count_within(h, now, MINUTE_MS) >= per_minute {
        Err(RateLimitError::MinuteLimitExceeded)
    } else {
        Ok(())
    }
}

/// The key under which operations `op` on `key` are counted.
pub open spec fn rate_key(key: Seq<char>, op: Seq<char>) -> Seq<char> {
    key + seq![':'] + op
}

/// No two entries have the same key.
pub open spec fn unique_keys(e: Seq<(Seq<char>, Seq<u64>)>) -> bool {
    forall|i: int, j: int| 0 <= i < j < e.len() ==> (#[trigger] e[i]).0 != (#[trigger] e[j]).0
}

/// Some entry has key `k`.
pub open spec fn has_key(e: Seq<(Seq<char>, Seq<u64>)>, k: Seq<char>) -> bool {
    exists|i: int| 0 <= i < e.len() && (#[trigger] e[i]).0 == k
}

/// The recorded times under key `k` (none where no entry has that key).
pub open spec fn ops_in(e: Seq<(Seq<char>, Seq<u64>)>, k: Seq<char>) -> Seq<u64> {
    if has_key(e, k) {
        e[choose|i: int| 0 <= i < e.len() && (#[trigger] e[i]).0 == k].1
    } else {
        Seq::empty()
    }
}

/// The entries after a clean-up: old times dropped, emptied entries removed.
pub open spec fn cleanup(e: Seq<(Seq<char>, Seq<u64>)>, now: u64) -> Seq<(Seq<char>, Seq<u64>)>
    decreases e.len(),
{
    if e.len() == 0 {
        e
    } else {
        let p = cleanup(e.drop_last(), now);
        let t = keep_within(e.last().1, now, HOUR_MS);
        if t.len() > 0 {
            p.push((e.last().0, t))
        } else {
            p
        }
    }
}

/// The start of every rate key recorded for `key`: the key and a colon.
pub open spec fn key_prefix(key: Seq<char>) -> Seq<char> {
    key.push(':')
}

/// The entries whose keys do not start with `key`.
pub open spec fn drop_prefixed(e: Seq<(Seq<char>, Seq<u64>)>, key: Seq<char>) -> Seq<(Seq<char>, Seq<u64>)>
    decreases e.len(),
{
    if e.len() == 0 {
        e
    } else {
        let p = drop_prefixed(e.drop_last(), key);
        if has_prefix(e.last().0, key) {
            p
        } else {
            p.push(e.last())
        }
    }
}

/// Where entry `i` has key `k` and keys are unique, the times under `k` are
/// those of entry `i`.
pub proof fn lemma_ops_in_at(e: Seq<(Seq<char>, Seq<u64>)>, k: Seq<char>, i: int)
    requires
        unique_keys(e),
        0 <= i < e.len(),
        e[i].0 == k,
    ensures
        ops_in(e, k) == e[i].1,
{
    let j = choose|j: int| 0 <= j < e.len() && (#[trigger] e[j]).0 == k;
    if j < i {
        assert(e[j].0 != e[i].0);
    } else if j > i {
        assert(e[i].0 != e[j].0);
    }
}

/// The times under `k` after pushing an entry with another key are those
/// before; with key `k` onto entries without it, they are the pushed ones.
pub proof fn lemma_ops_in_push(e: Seq<(Seq<char>, Seq<u64>)>, x: (Seq<char>, Seq<u64>), k: Seq<char>)
    requires
        unique_keys(e),
        !has_key(e, x.0),
    ensures
        unique_keys(e.push(x)),
        ops_in(e.push(x), k) == if x.0 == k { x.1 } else { ops_in(e, k) },
{
    let f = e.push(x);
    assert forall|i: int, j: int| 0 <= i < j < f.len() implies (#[trigger] f[i]).0 != (#[trigger] f[j]).0 by {
        if j == e.len() {
            if f[i].0 == x.0 {
                assert(e[i].0 == x.0);
            }
        } else {
            assert(e[i].0 != e[j].0);
        }
    }
    if x.0 == k {
        lemma_ops_in_at(f, k, e.len() as int);
    } else if has_key(e, k) {
        let i = choose|i: int| 0 <= i < e.len() && (#[trigger] e[i]).0 == k;
        lemma_ops_in_at(e, k, i);
        lemma_ops_in_at(f, k, i);
    } else {
        assert(!has_key(f, k)) by {
            if has_key(f, k) {
                let i = choose|i: int| 0 <= i < f.len() && (#[trigger] f[i]).0 == k;
                assert(e[i].0 == k);
            }
        }
    }
}

/// Replacing the times of entry `i` changes only the times under its key.
pub proof fn lemma_ops_in_update(e: Seq<(Seq<char>, Seq<u64>)>, i: int, ts: Seq<u64>, k: Seq<char>)
    requires
        unique_keys(e),
        0 <= i < e.len(),
    ensures
        unique_keys(e.update(i, (e[i].0, ts))),
        ops_in(e.update(i, (e[i].0, ts)), k) == if e[i].0 == k { ts } else { ops_in(e, k) },
{
    let f = e.update(i, (e[i].0, ts));
    assert forall|a: int, b: int| 0 <= a < b < f.len() implies (#[trigger] f[a]).0 != (#[trigger] f[b]).0 by {
        assert(e[a].0 != e[b].0);
    }
    if e[i].0 == k {
        lemma_ops_in_at(f, k, i);
    } else if has_key(e, k) {
        let j = choose|j: int| 0 <= j < e.len() && (#[trigger] e[j]).0 == k;
        lemma_ops_in_at(e, k, j);
        lemma_ops_in_at(f, k, j);
    } else {
        assert(!has_key(f, k)) by {
            if has_key(f, k) {
                let j = choose|j: int| 0 <= j < f.len() && (#[trigger] f[j]).0 == k;
                assert(e[j].0 == k);
            }
        }
    }
}

/// A clean-up keeps keys unique, removes no key that still has recent
/// times, and leaves under each key exactly its times within the hour.
pub proof fn lemma_cleanup(e: Seq<(Seq<char>, Seq<u64>)>, now: u64, k: Seq<char>)
    requires
        unique_keys(e),
    ensures
        unique_keys(cleanup(e, now)),
        forall|j: Seq<char>| #[trigger] has_key(cleanup(e, now), j) ==> has_key(e, j),
        ops_in(cleanup(e, now), k) == keep_within(ops_in(e, k), now, HOUR_MS),
    decreases e.len(),
{
    if e.len() == 0 {
        assert(!has_key(e, k));
        assert(!has_key(cleanup(e, now), k));
    } else {
        let d = e.drop_last();
        assert(unique_keys(d)) by {
            assert forall|i: int, j: int| 0 <= i < j < d.len() implies (#[trigger] d[i]).0 != (#[trigger] d[j]).0 by {
                assert(e[i].0 != e[j].0);
            }
        }
        lemma_cleanup(d, now, k);
        let p = cleanup(d, now);
        let last = e.last();
        assert(e =~= d.push(last));
        let t = keep_within(last.1, now, HOUR_MS);
        assert(!has_key(d, last.0)) by {
            if has_key(d, last.0) {
                let i = choose|i: int| 0 <= i < d.len() && (#[trigger] d[i]).0 == last.0;
                assert(e[i].0 != e[e.len() - 1].0);
            }
        }
        assert(!has_key(p, last.0));
        if last.0 == k {
            lemma_ops_in_push(d, last, k);
            assert(!has_key(d, k));
            assert(ops_in(d, k) == Seq::<u64>::empty());
            assert(keep_within(Seq::<u64>::empty(), now, HOUR_MS) == Seq::<u64>::empty());
        } else {
            lemma_ops_in_push(d, last, k);
        }
        if t.len() > 0 {
            assert(cleanup(e, now) == p.push((last.0, t)));
            lemma_ops_in_push(p, (last.0, t), k);
            assert forall|j: Seq<char>| has_key(cleanup(e, now), j) implies has_key(e, j) by {
                let f = cleanup(e, now);
                let i = choose|i: int| 0 <= i < f.len() && (#[trigger] f[i]).0 == j;
                if i == p.len() {
                    assert(e[e.len() - 1].0 == j);
                } else {
                    assert(p[i].0 == j);
                    assert(has_key(p, j));
                    assert(has_key(d, j));
                    let m = choose|m: int| 0 <= m < d.len() && (#[trigger] d[m]).0 == j;
                    assert(e[m].0 == j);
                }
            }
        } else {
            assert(cleanup(e, now) == p);
            assert forall|j: Seq<char>| has_key(cleanup(e, now), j) implies has_key(e, j) by {
                assert(has_key(p, j));
                assert(has_key(d, j));
                let m = choose|m: int| 0 <= m < d.len() && (#[trigger] d[m]).0 == j;
                assert(e[m].0 == j);
            }
            if last.0 == k {
                if has_key(p, k) {
                    assert(has_key(d, k));
                }
                assert(!has_key(p, k));
            }
        }
    }
}

/// Dropping the entries whose keys start with `key` keeps keys unique and
/// leaves the times under every other key as they were.
pub proof fn lemma_drop_prefixed(e: Seq<(Seq<char>, Seq<u64>)>, key: Seq<char>, k: Seq<char>)
    requires
        unique_keys(e),
    ensures
        unique_keys(drop_prefixed(e, key)),
        forall|j: Seq<char>| #[trigger] has_key(drop_prefixed(e, key), j) ==> has_key(e, j) && !has_prefix(j, key),
        ops_in(drop_prefixed(e, key), k) == if has_prefix(k, key) { Seq::<u64>::empty() } else { ops_in(e, k) },
    decreases e.len(),
{
    if e.len() == 0 {
        assert(!has_key(e, k));
        assert(!has_key(drop_prefixed(e, key), k));
    } else {
        let d = e.drop_last();
        assert(unique_keys(d)) by {
            assert forall|i: int, j: int| 0 <= i < j < d.len() implies (#[trigger] d[i]).0 != (#[trigger] d[j]).0 by {
                assert(e[i].0 != e[j].0);
            }
        }
        lemma_drop_prefixed(d, key, k);
        let p = drop_prefixed(d, key);
        let last = e.last();
        assert(!has_key(d, last.0)) by {
            if has_key(d, last.0) {
                let i = choose|i: int| 0 <= i < d.len() && (#[trigger] d[i]).0 == last.0;
                assert(e[i].0 != e[e.len() - 1].0);
            }
        }
        assert(e =~= d.push(last));
        lemma_ops_in_push(d, last, k);
        if has_prefix(last.0, key) {
            assert(drop_prefixed(e, key) == p);
            assert forall|j: Seq<char>| has_key(drop_prefixed(e, key), j) implies has_key(e, j) && !has_prefix(j, key) by {
                assert(has_key(d, j));
                let m = choose|m: int| 0 <= m < d.len() && (#[trigger] d[m]).0 == j;
                assert(e[m].0 == j);
            }
            if last.0 == k {
                if has_key(p, k) {
                    assert(has_prefix(k, key));
                }
            }
        } else {
            assert(drop_prefixed(e, key) == p.push(last));
            assert(!has_key(p, last.0));
            lemma_ops_in_push(p, last, k);
            assert forall|j: Seq<char>| has_key(drop_prefixed(e, key), j) implies has_key(e, j) && !has_prefix(j, key) by {
                let f = drop_prefixed(e, key);
                let i = choose|i: int| 0 <= i < f.len() && (#[trigger] f[i]).0 == j;
                if i == p.len() {
                    assert(e[e.len() - 1].0 == j);
                } else {
                    assert(p[i].0 == j);
                    assert(has_key(p, j));
                    let m = choose|m: int| 0 <= m < d.len() && (#[trigger] d[m]).0 == j;
                    assert(e[m].0 == j);
                }
            }
        }
    }
}

/// `std::time::Instant`, a point on the monotonic clock.
#[verifier::external_type_specification]
#[verifier::external_body]
pub struct ExInstant(std::time::Instant);

/// `Instant::now`: the current point on the monotonic clock. Nothing is
/// stated of it.
#[verifier::external_body]
pub(crate) fn instant_now() -> (r: std::time::Instant) {
    std::time::Instant::now()
}

/// `Instant::elapsed` on `origin`, in whole milliseconds (saturating at the
/// largest `u64`). It depends on the clock: nothing is stated of it.
#[verifier::external_body]
pub(crate) fn millis_since(origin: &std::time::Instant) -> (r: u64) {
    let ms = origin.elapsed().as_millis();
    if ms > u64::MAX as u128 { u64::MAX } else { ms as u64 }
}

/// The operations recorded under one key.
pub struct RateEntry {
    pub key: String,
    pub times: Vec<u64>,
}

/// Why an operation was refused.
#[derive(PartialEq, Eq, Structural, Clone, Copy, Debug)]
pub enum RateLimitError {
    /// Too many operations in the last hour.
    HourlyLimitExceeded,
    /// Too many operations in the last minute.
    MinuteLimitExceeded,
}

impl RateLimitError {
    /// The message that reports this error.
    pub fn message(&self) -> (r: &'static str)
        ensures
            r@ == match self {
                RateLimitError::HourlyLimitExceeded => "Rate limit exceeded: too many operations per hour"@,
                RateLimitError::MinuteLimitExceeded => "Rate limit exceeded: too many operations per minute"@,
            },
    {
        match self {
            RateLimitError::HourlyLimitExceeded => "Rate limit exceeded: too many operations per hour",
            RateLimitError::MinuteLimitExceeded => "Rate limit exceeded: too many operations per minute",
        }
    }
}

/// Rate limiter for package operations to prevent abuse.
pub struct RateLimiter {
    entries: Vec<RateEntry>,
    max_operations_per_minute: usize,
    max_operations_per_hour: usize,
    cleanup_last_run: u64,
    origin: std::time::Instant,
}

/// Current rate limit status for a key and operation.
pub struct RateLimitStatus {
    pub operations_this_minute: usize,
    pub operations_this_hour: usize,
    pub max_per_minute: usize,
    pub max_per_hour: usize,
    pub can_proceed: bool,
}

impl RateLimitStatus {
    /// Operations left in the current minute.
    pub fn remaining_minute(&self) -> (r: usize)
        ensures
            r == if self.max_per_minute >= self.operations_this_minute {
                self.max_per_minute - self.operations_this_minute
            } else {
                0
            },
    {
        self.max_per_minute.saturating_sub(self.operations_this_minute)
    }

    /// Operations left in the current hour.
    pub fn remaining_hour(&self) -> (r: usize)
        ensures
            r == if self.max_per_hour >= self.operations_this_hour {
                self.max_per_hour - self.operations_this_hour
            } else {
                0
            },
    {
        self.max_per_hour.saturating_sub(self.operations_this_hour)
    }
}

/// The times of `ts` within the window.
fn keep_within_exec(ts: &Vec<u64>, now: u64, w: u64) -> (r: Vec<u64>)
    ensures
        r@ == keep_within(ts@, now, w),
{
    let mut r: Vec<u64> = Vec::new();
    let mut i: usize = 0;
    while i < ts.len()
        invariant
            i <= ts.len(),
            r@ == keep_within(ts@.take(i as int), now, w),
        decreases ts.len() - i,
    {
        assert(ts@.take(i + 1).drop_last() =~= ts@.take(i as int));
        let t = ts[i];
        let e: u64 = if now >= t { now - t } else { 0 };
        if e < w {
            r.push(t);
        }
        i = i + 1;
    }
    assert(ts@.take(ts.len() as int) =~= ts@);
    r
}

/// Whether two strings hold the same text.
fn same_text(a: &String, b: &String) -> (r: bool)
    ensures
        r == (a@ == b@),
{
    a.eq(b)
}

impl RateLimiter {
    /// The recorded entries, as keys and times.
    pub closed spec fn entries_view(&self) -> Seq<(Seq<char>, Seq<u64>)> {
        Seq::new(self.entries@.len(), |i: int| (self.entries@[i].key@, self.entries@[i].times@))
    }

    /// The operations allowed per minute.
    pub closed spec fn per_minute(&self) -> nat {
        self.max_operations_per_minute as nat
    }

    /// The operations allowed per hour.
    pub closed spec fn per_hour(&self) -> nat {
        self.max_operations_per_hour as nat
    }

    /// When the last clean-up ran.
    pub closed spec fn last_cleanup(&self) -> u64 {
        self.cleanup_last_run
    }

    /// The recorded times of operations `op` on `key`.
    pub open spec fn history(&self, key: Seq<char>, op: Seq<char>) -> Seq<u64> {
        ops_in(self.entries_view(), rate_key(key, op))
    }

    /// Operations `op` on `key` have an entry (possibly with no times).
    pub open spec fn tracks(&self, key: Seq<char>, op: Seq<char>) -> bool {
        has_key(self.entries_view(), rate_key(key, op))
    }

    /// The limiter's invariant: no two entries share a key.
    pub closed spec fn wf(&self) -> bool {
        unique_keys(self.entries_view())
    }

    /// Create a new rate limiter with default limits (10 per minute, 100
    /// per hour).
    pub fn new() -> (r: Self)
        ensures
            r.wf(),
            r.per_minute() == 10,
            r.per_hour() == 100,
            r.entries_view().len() == 0,
            r.last_cleanup() == 0,
    {
        Self::with_limits(10, 100)
    }

    /// Create a rate limiter with custom limits.
    pub fn with_limits(per_minute: usize, per_hour: usize) -> (r: Self)
        ensures
            r.wf(),
            r.per_minute() == per_minute,
            r.per_hour() == per_hour,
            r.entries_view().len() == 0,
            r.last_cleanup() == 0,
    {
        let r = RateLimiter {
            entries: Vec::new(),
            max_operations_per_minute: per_minute,
            max_operations_per_hour: per_hour,
            cleanup_last_run: 0,
            origin: instant_now(),
        };
        assert(r.entries_view() =~= Seq::<(Seq<char>, Seq<u64>)>::empty());
        r
    }

    /// The entries as they stand before an operation at `now`: cleaned up
    /// where a clean-up is due.
    pub open spec fn entries_before(&self, now: u64) -> Seq<(Seq<char>, Seq<u64>)> {
        if elapsed(self.last_cleanup(), now) > CLEANUP_INTERVAL_MS {
            cleanup(self.entries_view(), now)
        } else {
            self.entries_view()
        }
    }

    /// The recent times under `k` that an operation at `now` counts.
    pub open spec fn counted(&self, k: Seq<char>, now: u64) -> Seq<u64> {
        keep_within(ops_in(self.entries_before(now), k), now, HOUR_MS)
    }

    /// Check if an operation is allowed for the given key (e.g. package
    /// name, user) at time `now`, and record it where it is.
    pub fn check_rate_limit_at(&mut self, key: &str, operation: &str, now: u64) -> (r: Result<(), RateLimitError>)
        requires
            old(self).wf(),
        ensures
            final(self).wf(),
            final(self).per_minute() == old(self).per_minute(),
            final(self).per_hour() == old(self).per_hour(),
            ({
                let k = rate_key(key@, operation@);
                let h = old(self).counted(k, now);
                &&& r == limit_verdict(h, now, old(self).per_minute(), old(self).per_hour())
                &&& ops_in(final(self).entries_view(), k) == if r is Ok { h.push(now) } else { h }
                &&& forall|j: Seq<char>| j != k ==> ops_in(final(self).entries_view(), j) == ops_in(old(self).entries_before(now), j)
            }),
            ({
                let k = rate_key(key@, operation@);
                let recorded = ops_in(old(self).entries_view(), k);
                let recent = keep_within(recorded, now, HOUR_MS);
                &&& (r is Ok) <==> (recent.len() < old(self).per_hour() && count_within(recorded, now, MINUTE_MS)
                    < old(self).per_minute())
                &&& ops_in(final(self).entries_view(), k) == if r is Ok { recent.push(now) } else { recent }
                &&& forall|j: Seq<char>| j != k ==> #[trigger] ops_in(final(self).entries_view(), j) == ops_in(
                    old(self).entries_view(),
                    j,
                ) || ops_in(final(self).entries_view(), j) == keep_within(ops_in(old(self).entries_view(), j), now, HOUR_MS)
            }),
            final(self).last_cleanup() == if elapsed(old(self).last_cleanup(), now) > CLEANUP_INTERVAL_MS {
                now
            } else {
                old(self).last_cleanup()
            },
    {
        let ghost k = rate_key(key@, operation@);
        let since: u64 = if now >= self.cleanup_last_run { now - self.cleanup_last_run } else { 0 };
        if since > CLEANUP_INTERVAL_MS {
            self.cleanup_old_entries(now);
        }
        let ghost pre = self.entries_view();
        assert(pre == old(self).entries_before(now));
        let mut rk = String::new();
        let kv = chars_of(key);
        let ov = chars_of(operation);
        let mut i: usize = 0;
        while i < kv.len()
            invariant
                i <= kv.len(),
                rk@ == kv@.take(i as int),
            decreases kv.len() - i,
        {
            push_char(&mut rk, kv[i]);
            assert(kv@.take(i + 1) =~= kv@.take(i as int).push(kv@[i as int]));
            i = i + 1;
        }
        push_char(&mut rk, ':');
        let mut i: usize = 0;
        while i < ov.len()
            invariant
                i <= ov.len(),
                rk@ == kv@ + seq![':'] + ov@.take(i as int),
            decreases ov.len() - i,
        {
            push_char(&mut rk, ov[i]);
            assert(ov@.take(i + 1) =~= ov@.take(i as int).push(ov@[i as int]));
            assert(kv@ + seq![':'] + ov@.take(i + 1) =~= (kv@ + seq![':'] + ov@.take(i as int)).push(ov@[i as int]));
            i = i + 1;
        }
        assert(ov@.take(ov.len() as int) =~= ov@);
        assert(rk@ == k);
        // Find or create the entry for this key.
        let mut idx: usize = 0;
        let mut found = false;
        while !found && idx < self.entries.len()
            invariant
                idx <= self.entries@.len(),
                self.entries_view() == pre,
                forall|j: int| 0 <= j < idx ==> pre[j].0 != k,
                found ==> idx < pre.len() && pre[idx as int].0 == k,
                rk@ == k,
            decreases self.entries.len() - idx + if found { 0int } else { 1int },
        {
            if same_text(&self.entries[idx].key, &rk) {
                found = true;
            } else {
                idx = idx + 1;
            }
        }
        if !found {
            assert(!has_key(pre, k)) by {
                if has_key(pre, k) {
                    let j = choose|j: int| 0 <= j < pre.len() && (#[trigger] pre[j]).0 == k;
                }
            }
            self.entries.push(RateEntry { key: rk, times: Vec::new() });
            proof {
                lemma_ops_in_push(pre, (k, Seq::<u64>::empty()), k);
                assert(self.entries_view() =~= pre.push((k, Seq::<u64>::empty())));
                assert forall|j: Seq<char>| j != k implies ops_in(self.entries_view(), j) == ops_in(pre, j) by {
                    lemma_ops_in_push(pre, (k, Seq::<u64>::empty()), j);
                }
                assert(ops_in(pre, k) == Seq::<u64>::empty());
            }
            idx = self.entries.len() - 1;
        } else {
            proof {
                lemma_ops_in_at(pre, k, idx as int);
            }
        }
        let ghost mid = self.entries_view();
        assert(mid[idx as int].0 == k);
        assert(mid[idx as int].1 == ops_in(pre, k)) by {
            lemma_ops_in_at(mid, k, idx as int);
        }
        let kept = keep_within_exec(&self.entries[idx].times, now, HOUR_MS);
        let hour_count = kept.len();
        let recent = keep_within_exec(&kept, now, MINUTE_MS);
        let minute_count = recent.len();
        let mut new_times = kept;
        let result = if hour_count >= self.max_operations_per_hour {
            Err(RateLimitError::HourlyLimitExceeded)
        } else if minute_count >= self.max_operations_per_minute {
            Err(RateLimitError::MinuteLimitExceeded)
        } else {
            new_times.push(now);
            Ok(())
        };
        let key_text = self.entries[idx].key.clone();
        let ghost nt = new_times@;
        self.entries.set(idx, RateEntry { key: key_text, times: new_times });
        proof {
            assert(self.entries_view() =~= mid.update(idx as int, (k, nt)));
            lemma_ops_in_update(mid, idx as int, nt, k);
            assert forall|j: Seq<char>| j != k implies ops_in(self.entries_view(), j) == ops_in(pre, j) by {
                lemma_ops_in_update(mid, idx as int, nt, j);
            }
            law_verdict_counts_recent_times(*old(self), k, now);
            let recorded = ops_in(old(self).entries_view(), k);
            assert(old(self).counted(k, now) == keep_within(recorded, now, HOUR_MS));
            assert(ops_in(self.entries_view(), k) == nt);
            assert(result == limit_verdict(old(self).counted(k, now), now, old(self).per_minute(), old(self).per_hour()));
            assert forall|j: Seq<char>| j != k implies #[trigger] ops_in(self.entries_view(), j) == ops_in(
                old(self).entries_view(),
                j,
            ) || ops_in(self.entries_view(), j) == keep_within(ops_in(old(self).entries_view(), j), now, HOUR_MS) by {
                lemma_ops_in_update(mid, idx as int, nt, j);
                assert(ops_in(old(self).entries_before(now), j) == ops_in(pre, j));
            }
        }
        result
    }

    /// Check if an operation is allowed for the given key now, on the
    /// limiter's monotonic clock, and record it where it is.
    pub fn check_rate_limit(&mut self, key: &str, operation: &str) -> (r: Result<(), RateLimitError>)
        requires
            old(self).wf(),
        ensures
            final(self).wf(),
            final(self).per_minute() == old(self).per_minute(),
            final(self).per_hour() == old(self).per_hour(),
            exists|now: u64| #![trigger old(self).counted(rate_key(key@, operation@), now)] {
                let k = rate_key(key@, operation@);
                let h = old(self).counted(k, now);
                &&& r == limit_verdict(h, now, old(self).per_minute(), old(self).per_hour())
                &&& ops_in(final(self).entries_view(), k) == if r is Ok { h.push(now) } else { h }
                &&& forall|j: Seq<char>| j != k ==> #[trigger] ops_in(final(self).entries_view(), j) == ops_in(
                    old(self).entries_before(now),
                    j,
                )
                &&& final(self).last_cleanup() == if elapsed(old(self).last_cleanup(), now) > CLEANUP_INTERVAL_MS {
                    now
                } else {
                    old(self).last_cleanup()
                }
                &&& (r is Ok) <==> (keep_within(ops_in(old(self).entries_view(), k), now, HOUR_MS).len()
                    < old(self).per_hour() && count_within(ops_in(old(self).entries_view(), k), now, MINUTE_MS)
                    < old(self).per_minute())
                &&& ops_in(final(self).entries_view(), k) == if r is Ok {
                    keep_within(ops_in(old(self).entries_view(), k), now, HOUR_MS).push(now)
                } else {
                    keep_within(ops_in(old(self).entries_view(), k), now, HOUR_MS)
                }
                &&& forall|j: Seq<char>| j != k ==> #[trigger] ops_in(final(self).entries_view(), j) == ops_in(
                    old(self).entries_view(),
                    j,
                ) || ops_in(final(self).entries_view(), j) == keep_within(ops_in(old(self).entries_view(), j), now, HOUR_MS)
            },
    {
        let now = millis_since(&self.origin);
        self.check_rate_limit_at(key, operation, now)
    }

    /// Reset rate limits for a specific key: the entries recorded for `key`
    /// (whose rate keys are `key`, a colon and an operation) are removed,
    /// and every other entry stays.
    pub fn reset_limits(&mut self, key: &str) -> (r: Result<(), RateLimitError>)
        requires
            old(self).wf(),
        ensures
            r is Ok,
            final(self).wf(),
            final(self).per_minute() == old(self).per_minute(),
            final(self).per_hour() == old(self).per_hour(),
            final(self).last_cleanup() == old(self).last_cleanup(),
            final(self).entries_view() == drop_prefixed(old(self).entries_view(), key_prefix(key@)),
            forall|k: Seq<char>| #[trigger] ops_in(final(self).entries_view(), k) == if has_prefix(k, key_prefix(key@)) {
                Seq::<u64>::empty()
            } else {
                ops_in(old(self).entries_view(), k)
            },
    {
        let mut kv = chars_of(key);
        kv.push(':');
        let ghost e = self.entries_view();
        let mut kept: Vec<RateEntry> = Vec::new();
        let mut old_entries: Vec<RateEntry> = Vec::new();
        std::mem::swap(&mut old_entries, &mut self.entries);
        let mut i: usize = 0;
        while i < old_entries.len()
            invariant
                i <= old_entries@.len(),
                kv@ == key_prefix(key@),
                e == Seq::new(old_entries@.len(), |j: int| (old_entries@[j].key@, old_entries@[j].times@)),
                Seq::new(kept@.len(), |j: int| (kept@[j].key@, kept@[j].times@)) == drop_prefixed(e.take(i as int), key_prefix(key@)),
            decreases old_entries.len() - i,
        {
            assert(e.take(i + 1).drop_last() =~= e.take(i as int));
            let ek = chars_of(old_entries[i].key.as_str());
            let starts = occurs_at_exec(&ek, &kv, 0);
            if !starts {
                let copy = RateEntry { key: old_entries[i].key.clone(), times: old_entries[i].times.clone() };
                kept.push(copy);
                assert(Seq::new(kept@.len(), |j: int| (kept@[j].key@, kept@[j].times@)) =~= drop_prefixed(e.take(i as int), key_prefix(key@)).push(e[i as int]));
            }
            i = i + 1;
        }
        assert(e.take(old_entries.len() as int) =~= e);
        self.entries = kept;
        proof {
            lemma_drop_prefixed(e, key_prefix(key@), key@);
            assert(self.entries_view() =~= drop_prefixed(e, key_prefix(key@)));
            assert forall|k: Seq<char>| #[trigger] ops_in(self.entries_view(), k) == if has_prefix(k, key_prefix(key@)) {
                Seq::<u64>::empty()
            } else {
                ops_in(e, k)
            } by {
                lemma_drop_prefixed(e, key_prefix(key@), k);
            }
        }
        Ok(())
    }

    /// The rate limit status of operations `op` on `key` at time `now`.
    pub fn get_status_at(&self, key: &str, operation: &str, now: u64) -> (r: Result<RateLimitStatus, RateLimitError>)
        requires
            self.wf(),
        ensures
            r matches Ok(s) && {
                let h = self.history(key@, operation@);
                &&& s.operations_this_minute == count_within(h, now, MINUTE_MS)
                &&& s.operations_this_hour == h.len()
                &&& s.max_per_minute == self.per_minute()
                &&& s.max_per_hour == self.per_hour()
                &&& s.can_proceed == (!self.tracks(key@, operation@) || (count_within(h, now, MINUTE_MS) < self.per_minute() && h.len() < self.per_hour()))
            },
    {
        let ghost e = self.entries_view();
        let ghost k = rate_key(key@, operation@);
        let mut rk = String::new();
        let kv = chars_of(key);
        let ov = chars_of(operation);
        let mut i: usize = 0;
        while i < kv.len()
            invariant
                i <= kv.len(),
                rk@ == kv@.take(i as int),
            decreases kv.len() - i,
        {
            push_char(&mut rk, kv[i]);
            assert(kv@.take(i + 1) =~= kv@.take(i as int).push(kv@[i as int]));
            i = i + 1;
        }
        push_char(&mut rk, ':');
        let mut i: usize = 0;
        while i < ov.len()
            invariant
                i <= ov.len(),
                rk@ == kv@ + seq![':'] + ov@.take(i as int),
            decreases ov.len() - i,
        {
            push_char(&mut rk, ov[i]);
            assert(ov@.take(i + 1) =~= ov@.take(i as int).push(ov@[i as int]));
            assert(kv@ + seq![':'] + ov@.take(i + 1) =~= (kv@ + seq![':'] + ov@.take(i as int)).push(ov@[i as int]));
            i = i + 1;
        }
        assert(ov@.take(ov.len() as int) =~= ov@);
        let mut idx: usize = 0;
        while idx < self.entries.len()
            invariant
                idx <= self.entries@.len(),
                self.entries_view() == e,
                k == rate_key(key@, operation@),
                unique_keys(e),
                forall|j: int| 0 <= j < idx ==> e[j].0 != k,
                rk@ == k,
            decreases self.entries.len() - idx,
        {
            if same_text(&self.entries[idx].key, &rk) {
                proof {
                    lemma_ops_in_at(e, k, idx as int);
                    assert(has_key(e, k));
                }
                let times = &self.entries[idx].times;
                let recent = keep_within_exec(times, now, MINUTE_MS);
                let minute = recent.len();
                let hour = times.len();
                return Ok(RateLimitStatus {
                    operations_this_minute: minute,
                    operations_this_hour: hour,
                    max_per_minute: self.max_operations_per_minute,
                    max_per_hour: self.max_operations_per_hour,
                    can_proceed: minute < self.max_operations_per_minute && hour < self.max_operations_per_hour,
                });
            }
            idx = idx + 1;
        }
        assert(!has_key(e, k)) by {
            if has_key(e, k) {
                let j = choose|j: int| 0 <= j < e.len() && (#[trigger] e[j]).0 == k;
            }
        }
        assert(keep_within(Seq::<u64>::empty(), now, MINUTE_MS) == Seq::<u64>::empty());
        Ok(RateLimitStatus {
            operations_this_minute: 0,
            operations_this_hour: 0,
            max_per_minute: self.max_operations_per_minute,
            max_per_hour: self.max_operations_per_hour,
            can_proceed: true,
        })
    }

    /// Current rate limit status for a key, on the limiter's clock.
    pub fn get_status(&self, key: &str, operation: &str) -> (r: Result<RateLimitStatus, RateLimitError>)
        requires
            self.wf(),
        ensures
            r matches Ok(s) && exists|now: u64| #![trigger count_within(self.history(key@, operation@), now, MINUTE_MS)] {
                let h = self.history(key@, operation@);
                &&& s.operations_this_minute == count_within(h, now, MINUTE_MS)
                &&& s.operations_this_hour == h.len()
                &&& s.max_per_minute == self.per_minute()
                &&& s.max_per_hour == self.per_hour()
                &&& s.can_proceed == (!self.tracks(key@, operation@) || (count_within(h, now, MINUTE_MS) < self.per_minute() && h.len() < self.per_hour()))
            },
    {
        let now = millis_since(&self.origin);
        self.get_status_at(key, operation, now)
    }

    fn cleanup_old_entries(&mut self, now: u64)
        requires
            old(self).wf(),
        ensures
            final(self).wf(),
            final(self).entries_view() == cleanup(old(self).entries_view(), now),
            final(self).max_operations_per_minute == old(self).max_operations_per_minute,
            final(self).max_operations_per_hour == old(self).max_operations_per_hour,
            final(self).cleanup_last_run == now,
    {
        let ghost e = self.entries_view();
        let mut kept: Vec<RateEntry> = Vec::new();
        let mut old_entries: Vec<RateEntry> = Vec::new();
        std::mem::swap(&mut old_entries, &mut self.entries);
        let mut i: usize = 0;
        while i < old_entries.len()
            invariant
                i <= old_entries@.len(),
                e == Seq::new(old_entries@.len(), |j: int| (old_entries@[j].key@, old_entries@[j].times@)),
                Seq::new(kept@.len(), |j: int| (kept@[j].key@, kept@[j].times@)) == cleanup(e.take(i as int), now),
            decreases old_entries.len() - i,
        {
            assert(e.take(i + 1).drop_last() =~= e.take(i as int));
            let t = keep_within_exec(&old_entries[i].times, now, HOUR_MS);
            if t.len() > 0 {
                let ghost tv = t@;
                kept.push(RateEntry { key: old_entries[i].key.clone(), times: t });
                assert(Seq::new(kept@.len(), |j: int| (kept@[j].key@, kept@[j].times@)) =~= cleanup(e.take(i as int), now).push((e[i as int].0, tv)));
            }
            i = i + 1;
        }
        assert(e.take(old_entries.len() as int) =~= e);
        self.entries = kept;
        self.cleanup_last_run = now;
        proof {
            lemma_cleanup(e, now, Seq::<char>::empty());
            assert(self.entries_view() =~= cleanup(e, now));
        }
    }
}

/// Keeping the times within a window, then those within a window no
/// longer, keeps the times within the second.
proof fn lemma_keep_within_nested(ts: Seq<u64>, now: u64, w1: u64, w2: u64)
    requires
        w2 <= w1,
    ensures
        keep_within(keep_within(ts, now, w1), now, w2) == keep_within(ts, now, w2),
    decreases ts.len(),
{
    if ts.len() > 0 {
        lemma_keep_within_nested(ts.drop_last(), now, w1, w2);
        let p = keep_within(ts.drop_last(), now, w1);
        if within(ts.last(), now, w1) {
            assert(p.push(ts.last()).drop_last() =~= p);
        }
    }
}

/// The verdict on an operation at `now` depends on the times recorded
/// under its key within the last hour and within the last minute: it is
/// allowed exactly when fewer than the hourly limit lie within the hour
/// and fewer than the per-minute limit within the minute. The times a
/// check counts (and keeps, adding `now` where it allows) are the recorded
/// ones of the last hour; every other key keeps its times, or keeps those
/// of the last hour where a clean-up is due.
pub proof fn law_verdict_counts_recent_times(l: RateLimiter, k: Seq<char>, now: u64)
    requires
        l.wf(),
    ensures
        l.counted(k, now) == keep_within(ops_in(l.entries_view(), k), now, HOUR_MS),
        (limit_verdict(l.counted(k, now), now, l.per_minute(), l.per_hour()) is Ok) <==> (count_within(
            ops_in(l.entries_view(), k),
            now,
            HOUR_MS,
        ) < l.per_hour() && count_within(ops_in(l.entries_view(), k), now, MINUTE_MS) < l.per_minute()),
        forall|j: Seq<char>| #[trigger] ops_in(l.entries_before(now), j) == ops_in(l.entries_view(), j)
            || ops_in(l.entries_before(now), j) == keep_within(ops_in(l.entries_view(), j), now, HOUR_MS),
{
    let e = l.entries_view();
    lemma_cleanup(e, now, k);
    lemma_keep_within_nested(ops_in(e, k), now, HOUR_MS, HOUR_MS);
    lemma_keep_within_nested(ops_in(e, k), now, HOUR_MS, MINUTE_MS);
    assert forall|j: Seq<char>| #[trigger] ops_in(l.entries_before(now), j) == ops_in(l.entries_view(), j)
        || ops_in(l.entries_before(now), j) == keep_within(ops_in(l.entries_view(), j), now, HOUR_MS) by {
        lemma_cleanup(e, now, j);
    }
}

/// A limiter with no entries and positive limits allows any operation:
/// the first check of an operation succeeds.
pub proof fn law_fresh_limiter_allows(l: RateLimiter, key: Seq<char>, op: Seq<char>, now: u64)
    requires
        l.wf(),
        l.entries_view().len() == 0,
        l.per_minute() > 0,
        l.per_hour() > 0,
    ensures
        limit_verdict(l.counted(rate_key(key, op), now), now, l.per_minute(), l.per_hour()) == Ok::<(), RateLimitError>(()),
{
    let k = rate_key(key, op);
    let e = l.entries_view();
    lemma_cleanup(e, now, k);
    assert(!has_key(e, k));
    assert(ops_in(e, k) == Seq::<u64>::empty());
    assert(ops_in(l.entries_before(now), k) == Seq::<u64>::empty());
    assert(keep_within(Seq::<u64>::empty(), now, HOUR_MS) == Seq::<u64>::empty());
    assert(keep_within(Seq::<u64>::empty(), now, MINUTE_MS) == Seq::<u64>::empty());
}

/// Resetting a key forgets every operation on it: afterwards its history
/// is empty, and with positive limits the next check of any operation on
/// it succeeds.
pub proof fn law_reset_clears_key(before: RateLimiter, after: RateLimiter, key: Seq<char>, op: Seq<char>, now: u64)
    requires
        before.wf(),
        after.wf(),
        after.entries_view() == drop_prefixed(before.entries_view(), key_prefix(key)),
        after.per_minute() > 0,
        after.per_hour() > 0,
    ensures
        after.history(key, op) == Seq::<u64>::empty(),
        limit_verdict(after.counted(rate_key(key, op), now), now, after.per_minute(), after.per_hour()) == Ok::<(), RateLimitError>(()),
{
    let k = rate_key(key, op);
    assert(k.subrange(0, key.len() as int + 1) =~= key_prefix(key));
    assert(has_prefix(k, key_prefix(key)));
    lemma_drop_prefixed(before.entries_view(), key_prefix(key), k);
    lemma_cleanup(after.entries_view(), now, k);
    assert(keep_within(Seq::<u64>::empty(), now, HOUR_MS) == Seq::<u64>::empty());
    assert(ops_in(after.entries_before(now), k) == Seq::<u64>::empty());
    assert(keep_within(Seq::<u64>::empty(), now, MINUTE_MS) == Seq::<u64>::empty());
}

/// An allowed operation never takes a key over its limits: with the
/// operation recorded, the key has at most `per_minute` operations in the
/// minute up to `now` and at most `per_hour` in its counted hour.
pub proof fn law_allowed_stays_within_limits(h: Seq<u64>, now: u64, per_minute: nat, per_hour: nat)
    requires
        limit_verdict(h, now, per_minute, per_hour) is Ok,
    ensures
        count_within(h.push(now), now, MINUTE_MS) <= per_minute,
        h.push(now).len() <= per_hour,
{
    assert(h.push(now).drop_last() =~= h);
    assert(within(now, now, MINUTE_MS));
}

} // verus!
