//! Error metrics: how many errors were recorded, by category, severity and
//! code, and when the alerts go off.
use vstd::prelude::*;
use crate::error_handling::{category_of, code_of, severity_of, unix_seconds, ErrorCategory, ErrorSeverity, OmniError};
use crate::keyed::{keys_unique, value_of, lemma_push_new, lemma_update_value, lemma_absent, lemma_value_at};
use crate::text::{owned, text_eq};

verus! {

/// The slot of a category in the counts by category.
pub open spec fn category_slot(c: ErrorCategory) -> int {
    match c {
        ErrorCategory::Package => 0,
        ErrorCategory::System => 1,
        ErrorCategory::Network => 2,
        ErrorCategory::Storage => 3,
        ErrorCategory::Security => 4,
        ErrorCategory::Configuration => 5,
        ErrorCategory::Validation => 6,
        ErrorCategory::Recovery => 7,
        ErrorCategory::Dependencies => 8,
        ErrorCategory::Transaction => 9,
        ErrorCategory::Unknown => 10,
    }
}

/// The slot of a severity in the counts by severity.
pub open spec fn severity_slot(s: ErrorSeverity) -> int {
    match s {
        ErrorSeverity::Low => 0,
        ErrorSeverity::Medium => 1,
        ErrorSeverity::High => 2,
        ErrorSeverity::Critical => 3,
    }
}

/// The sum of some counts.
pub open spec fn sum(v: Seq<u64>) -> int
    decreases v.len(),
{
    if v.len() == 0 {
        0
    } else {
        sum(v.drop_last()) + v.last()
    }
}

/// The sum of the counts of a list of codes.
pub open spec fn code_sum(v: Seq<(Seq<char>, u64)>) -> int
    decreases v.len(),
{
    if v.len() == 0 {
        0
    } else {
        code_sum(v.drop_last()) + v.last().1
    }
}

/// Adding one to a count adds one to the sum.
proof fn lemma_sum_bump(v: Seq<u64>, i: int)
    requires
        0 <= i < v.len(),
        v[i] < u64::MAX,
    ensures
        sum(v.update(i, (v[i] + 1) as u64)) == sum(v) + 1,
    decreases v.len(),
{
    let w = v.update(i, (v[i] + 1) as u64);
    if i == v.len() - 1 {
        assert(w.drop_last() =~= v.drop_last());
    } else {
        lemma_sum_bump(v.drop_last(), i);
        assert(w.drop_last() =~= v.drop_last().update(i, (v[i] + 1) as u64));
    }
}

/// Adding one to the count of a code adds one to the sum.
proof fn lemma_code_sum_bump(v: Seq<(Seq<char>, u64)>, i: int)
    requires
        0 <= i < v.len(),
        v[i].1 < u64::MAX,
    ensures
        code_sum(v.update(i, (v[i].0, (v[i].1 + 1) as u64))) == code_sum(v) + 1,
    decreases v.len(),
{
    let w = v.update(i, (v[i].0, (v[i].1 + 1) as u64));
    if i == v.len() - 1 {
        assert(w.drop_last() =~= v.drop_last());
    } else {
        lemma_code_sum_bump(v.drop_last(), i);
        assert(w.drop_last() =~= v.drop_last().update(i, (v[i].0, (v[i].1 + 1) as u64)));
    }
}

/// A count is at most the sum.
proof fn lemma_sum_part(v: Seq<u64>, i: int)
    requires
        0 <= i < v.len(),
    ensures
        v[i] <= sum(v),
    decreases v.len(),
{
    if i < v.len() - 1 {
        lemma_sum_part(v.drop_last(), i);
    }
    lemma_sum_nonneg(v.drop_last());
}

/// Sums of counts are not negative.
proof fn lemma_sum_nonneg(v: Seq<u64>)
    ensures
        sum(v) >= 0,
    decreases v.len(),
{
    if v.len() > 0 {
        lemma_sum_nonneg(v.drop_last());
    }
}

/// A code's count is at most the sum.
proof fn lemma_code_sum_part(v: Seq<(Seq<char>, u64)>, i: int)
    requires
        0 <= i < v.len(),
    ensures
        v[i].1 <= code_sum(v),
    decreases v.len(),
{
    if i < v.len() - 1 {
        lemma_code_sum_part(v.drop_last(), i);
    }
    lemma_code_sum_nonneg(v.drop_last());
}

/// Sums of code counts are not negative.
proof fn lemma_code_sum_nonneg(v: Seq<(Seq<char>, u64)>)
    ensures
        code_sum(v) >= 0,
    decreases v.len(),
{
    if v.len() > 0 {
        lemma_code_sum_nonneg(v.drop_last());
    }
}

/// The counts of recorded errors. The error rate is derived from the total
/// and the time since `uptime_start` (in seconds).
pub struct ErrorMetrics {
    pub total_errors: u64,
    pub by_category: Vec<u64>,
    pub by_severity: Vec<u64>,
    pub by_code: Vec<(String, u64)>,
    pub last_error_timestamp: u64,
    pub uptime_start: u64,
}

/// The counts by code as plain values.
pub open spec fn code_counts(v: Seq<(String, u64)>) -> Seq<(Seq<char>, u64)> {
    v.map_values(|p: (String, u64)| (p.0@, p.1))
}

impl ErrorMetrics {
    /// Every error recorded is counted once by category, once by severity
    /// and once by code: each set of counts adds up to the total.
    pub open spec fn wf(&self) -> bool {
        &&& self.by_category@.len() == 11
        &&& self.by_severity@.len() == 4
        &&& keys_unique(code_counts(self.by_code@))
        &&& sum(self.by_category@) == self.total_errors
        &&& sum(self.by_severity@) == self.total_errors
        &&& code_sum(code_counts(self.by_code@)) == self.total_errors
    }

    /// No errors yet, counting from `now`.
    pub fn new(now: u64) -> (r: Self)
        ensures
            r.wf(),
            r.total_errors == 0,
            r.uptime_start == now,
            r.last_error_timestamp == 0,
            r.by_code@.len() == 0,
    {
        let mut by_category: Vec<u64> = Vec::new();
        let mut i: usize = 0;
        while i < 11
            invariant
                i <= 11,
                by_category@.len() == i,
                forall|k: int| 0 <= k < i ==> by_category@[k] == 0,
                sum(by_category@) == 0,
            decreases 11 - i,
        {
            let ghost before = by_category@;
            by_category.push(0);
            assert(by_category@.drop_last() =~= before);
            i = i + 1;
        }
        let by_severity: Vec<u64> = vec![0, 0, 0, 0];
        assert(sum(by_severity@) == 0) by {
            reveal_with_fuel(sum, 5);
        }
        let r = ErrorMetrics {
            total_errors: 0,
            by_category,
            by_severity,
            by_code: Vec::new(),
            last_error_timestamp: 0,
            uptime_start: now,
        };
        assert(code_counts(r.by_code@) =~= Seq::<(Seq<char>, u64)>::empty());
        r
    }

    /// No errors yet, counting from the current time.
    pub fn started_now() -> (r: Self)
        ensures
            r.wf(),
            r.total_errors == 0,
            r.last_error_timestamp == 0,
            r.by_code@.len() == 0,
    {
        Self::new(unix_seconds())
    }

    /// Records an error seen now, on the system clock: one more in all, in
    /// its category, in its severity and under its code.
    pub fn record_error(&mut self, error: &OmniError)
        requires
            old(self).wf(),
            old(self).total_errors < u64::MAX,
        ensures
            final(self).wf(),
            final(self).total_errors == old(self).total_errors + 1,
            final(self).by_category@ == old(self).by_category@.update(
                category_slot(category_of(error)),
                (old(self).by_category@[category_slot(category_of(error))] + 1) as u64,
            ),
            final(self).by_severity@ == old(self).by_severity@.update(
                severity_slot(severity_of(error)),
                (old(self).by_severity@[severity_slot(severity_of(error))] + 1) as u64,
            ),
            value_of(code_counts(final(self).by_code@), code_of(error)) == Some(
                match value_of(code_counts(old(self).by_code@), code_of(error)) {
                    Some(n) => (n + 1) as u64,
                    None => 1u64,
                },
            ),
            forall|k: Seq<char>| k != code_of(error) ==> value_of(code_counts(final(self).by_code@), k)
                == value_of(code_counts(old(self).by_code@), k),
            final(self).uptime_start == old(self).uptime_start,
    {
        let now = unix_seconds();
        self.record(error, now);
    }

    /// Records an error seen at `now`: one more in all, in its category, in
    /// its severity and under its code.
    pub fn record(&mut self, error: &OmniError, now: u64)
        requires
            old(self).wf(),
            old(self).total_errors < u64::MAX,
        ensures
            final(self).wf(),
            final(self).total_errors == old(self).total_errors + 1,
            final(self).by_category@ == old(self).by_category@.update(
                category_slot(category_of(error)),
                (old(self).by_category@[category_slot(category_of(error))] + 1) as u64,
            ),
            final(self).by_severity@ == old(self).by_severity@.update(
                severity_slot(severity_of(error)),
                (old(self).by_severity@[severity_slot(severity_of(error))] + 1) as u64,
            ),
            value_of(code_counts(final(self).by_code@), code_of(error)) == Some(
                match value_of(code_counts(old(self).by_code@), code_of(error)) {
                    Some(n) => (n + 1) as u64,
                    None => 1u64,
                },
            ),
            forall|k: Seq<char>| k != code_of(error) ==> value_of(code_counts(final(self).by_code@), k)
                == value_of(code_counts(old(self).by_code@), k),
            final(self).last_error_timestamp == now,
            final(self).uptime_start == old(self).uptime_start,
    {
        let ghost cat0 = self.by_category@;
        let ghost sev0 = self.by_severity@;
        let ghost codes0 = code_counts(self.by_code@);
        let c = category_index(error.category());
        proof {
            lemma_sum_part(cat0, c as int);
        }
        let cv = self.by_category[c];
        self.by_category.set(c, cv + 1);
        proof {
            lemma_sum_bump(cat0, c as int);
        }
        let s = severity_index(error.severity());
        proof {
            lemma_sum_part(sev0, s as int);
        }
        let sv = self.by_severity[s];
        self.by_severity.set(s, sv + 1);
        proof {
            lemma_sum_bump(sev0, s as int);
        }
        let code = error.error_code();
        let mut i: usize = 0;
        let mut found = false;
        while i < self.by_code.len() && !found
            invariant
                i <= self.by_code@.len(),
                codes0 == code_counts(self.by_code@),
                !found ==> forall|k: int| 0 <= k < i ==> codes0[k].0 != code@,
                found ==> 0 < i && codes0[i - 1].0 == code@,
            decreases self.by_code.len() - i + if found { 0int } else { 1int },
        {
            if text_eq(self.by_code[i].0.as_str(), code) {
                found = true;
            }
            i = i + 1;
        }
        if found {
            let k = i - 1;
            proof {
                lemma_code_sum_part(codes0, k as int);
            }
            let n = self.by_code[k].1;
            let key = self.by_code[k].0.clone();
            self.by_code.set(k, (key, n + 1));
            proof {
                assert(code_counts(self.by_code@) =~= codes0.update(k as int, (codes0[k as int].0, (codes0[k as int].1 + 1) as u64)));
                lemma_code_sum_bump(codes0, k as int);
                lemma_value_at(codes0, code@, k as int);
                lemma_update_value(codes0, k as int, (n + 1) as u64, code@);
                assert forall|kk: Seq<char>| kk != code_of(error) implies #[trigger] value_of(code_counts(self.by_code@), kk)
                    == value_of(codes0, kk) by {
                    lemma_update_value(codes0, k as int, (n + 1) as u64, kk);
                }
            }
        } else {
            proof {
                lemma_absent(codes0, code@);
            }
            self.by_code.push((owned(code), 1));
            proof {
                assert(code_counts(self.by_code@) =~= codes0.push((code@, 1u64)));
                assert(code_counts(self.by_code@).drop_last() =~= codes0);
                lemma_push_new(codes0, (code@, 1u64), code@);
                assert forall|kk: Seq<char>| kk != code_of(error) implies #[trigger] value_of(code_counts(self.by_code@), kk)
                    == value_of(codes0, kk) by {
                    lemma_push_new(codes0, (code@, 1u64), kk);
                }
            }
        }
        self.total_errors = self.total_errors + 1;
        self.last_error_timestamp = now;
    }

    /// Whether more errors than `per_minute` a minute were recorded since
    /// the start, seen at `now`.
    pub fn high_error_rate(&self, now: u64, per_minute: u64) -> (r: bool)
        requires
            now >= self.uptime_start,
        ensures
            r == (now > self.uptime_start && self.total_errors * 60 > per_minute * (now - self.uptime_start)),
    {
        let elapsed = now - self.uptime_start;
        if elapsed == 0 {
            return false;
        }
        let a: u128 = per_minute as u128;
        let b: u128 = elapsed as u128;
        assert(a * b <= 0xffff_ffff_ffff_ffffu128 * 0xffff_ffff_ffff_ffffu128) by (nonlinear_arith)
            requires
                a <= 0xffff_ffff_ffff_ffffu128,
                b <= 0xffff_ffff_ffff_ffffu128,
        ;
        (self.total_errors as u128) * 60 > a * b
    }

    /// Whether the critical errors reached `threshold`.
    pub fn critical_alert(&self, threshold: u64) -> (r: bool)
        requires
            self.wf(),
        ensures
            r == (self.by_severity@[3] >= threshold),
    {
        self.by_severity[3] >= threshold
    }
}

/// The slot of a category.
pub fn category_index(c: ErrorCategory) -> (r: usize)
    ensures
        r == category_slot(c),
        r < 11,
{
    match c {
        ErrorCategory::Package => 0,
        ErrorCategory::System => 1,
        ErrorCategory::Network => 2,
        ErrorCategory::Storage => 3,
        ErrorCategory::Security => 4,
        ErrorCategory::Configuration => 5,
        ErrorCategory::Validation => 6,
        ErrorCategory::Recovery => 7,
        ErrorCategory::Dependencies => 8,
        ErrorCategory::Transaction => 9,
        ErrorCategory::Unknown => 10,
    }
}

/// The slot of a severity.
pub fn severity_index(s: ErrorSeverity) -> (r: usize)
    ensures
        r == severity_slot(s),
        r < 4,
{
    match s {
        ErrorSeverity::Low => 0,
        ErrorSeverity::Medium => 1,
        ErrorSeverity::High => 2,
        ErrorSeverity::Critical => 3,
    }
}

} // verus!
