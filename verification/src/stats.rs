use vstd::prelude::*;

verus! {

/// Sum of a sequence of latencies, as a mathematical integer.
pub open spec fn spec_sum(s: Seq<u64>) -> int
    decreases s.len(),
{
    if s.len() == 0 {
        0
    } else {
        spec_sum(s.drop_last()) + s.last()
    }
}

/// Number of `true` entries in a sequence of outcome flags.
pub open spec fn spec_count_true(s: Seq<bool>) -> int
    decreases s.len(),
{
    if s.len() == 0 {
        0
    } else {
        spec_count_true(s.drop_last()) + if s.last() { 1int } else { 0int }
    }
}

/// Least element of a latency sequence; `u64::MAX` when the sequence is empty.
pub open spec fn spec_min(s: Seq<u64>) -> u64
    decreases s.len(),
{
    if s.len() == 0 {
        u64::MAX
    } else {
        let m = spec_min(s.drop_last());
        if s.last() < m {
            s.last()
        } else {
            m
        }
    }
}

/// Greatest element of a latency sequence; `0` when the sequence is empty.
pub open spec fn spec_max(s: Seq<u64>) -> u64
    decreases s.len(),
{
    if s.len() == 0 {
        0
    } else {
        let m = spec_max(s.drop_last());
        if s.last() > m {
            s.last()
        } else {
            m
        }
    }
}

/// The count of `true` flags never exceeds the length of the sequence.
pub proof fn lemma_count_true_bounds(s: Seq<bool>)
    ensures
        0 <= spec_count_true(s) <= s.len(),
    decreases s.len(),
{
    if s.len() > 0 {
        lemma_count_true_bounds(s.drop_last());
    }
}

/// The sum of a latency sequence is non-negative and at most the length
/// times the largest representable latency.
pub proof fn lemma_sum_bounds(s: Seq<u64>)
    ensures
        0 <= spec_sum(s),
        spec_sum(s) <= s.len() * (u64::MAX as int),
    decreases s.len(),
{
    if s.len() > 0 {
        lemma_sum_bounds(s.drop_last());
        assert((s.len() - 1) * (u64::MAX as int) + (u64::MAX as int) == s.len() * (
        u64::MAX as int)) by (nonlinear_arith);
    }
}

/// The minimum and maximum of a non-empty latency sequence are themselves
/// elements of the sequence, and they bound every element.
pub proof fn lemma_min_max_members(s: Seq<u64>)
    requires
        s.len() >= 1,
    ensures
        s.contains(spec_min(s)),
        s.contains(spec_max(s)),
        forall|i: int| 0 <= i < s.len() ==> spec_min(s) <= s[i] && s[i] <= spec_max(s),
    decreases s.len(),
{
    if s.len() == 1 {
        assert(spec_min(s.drop_last()) == u64::MAX);
        assert(spec_max(s.drop_last()) == 0);
        assert(s[0] == s.last());
        assert(s[0] == spec_min(s));
        assert(s[0] == spec_max(s));
    } else {
        let d = s.drop_last();
        lemma_min_max_members(d);
        assert(forall|i: int| 0 <= i < d.len() ==> s[i] == d[i]);
        assert(s.contains(spec_min(s))) by {
            if spec_min(s) == s.last() {
                assert(s[s.len() - 1] == s.last());
            } else {
                let j = choose|j: int| 0 <= j < d.len() && d[j] == spec_min(d);
                assert(s[j] == spec_min(s));
            }
        }
        assert(s.contains(spec_max(s))) by {
            if spec_max(s) == s.last() {
                assert(s[s.len() - 1] == s.last());
            } else {
                let j = choose|j: int| 0 <= j < d.len() && d[j] == spec_max(d);
                assert(s[j] == spec_max(s));
            }
        }
    }
}

/// Latencies are unsigned, hence non-negative, and for a non-empty latency
/// sequence the minimum is at most the maximum while the sum lies between
/// `len * min` and `len * max`: divided by the length, the mean latency lies
/// between the minimum and the maximum.
pub proof fn lemma_latency_order(s: Seq<u64>)
    requires
        s.len() >= 1,
    ensures
        0 <= spec_min(s),
        spec_min(s) <= spec_max(s),
        s.len() * (spec_min(s) as int) <= spec_sum(s),
        spec_sum(s) <= s.len() * (spec_max(s) as int),
    decreases s.len(),
{
    let x = s.last() as int;
    let mn = spec_min(s) as int;
    let mx = spec_max(s) as int;
    let n = s.len() as int;
    if s.len() == 1 {
        assert(spec_sum(s.drop_last()) == 0);
        assert(spec_min(s.drop_last()) == u64::MAX);
        assert(spec_max(s.drop_last()) == 0);
        assert(1 * mn == mn) by (nonlinear_arith);
        assert(1 * mx == mx) by (nonlinear_arith);
    } else {
        let d = s.drop_last();
        lemma_latency_order(d);
        assert(mn <= spec_min(d) && mn <= x);
        assert(mx >= spec_max(d) && mx >= x);
        assert((n - 1) * (spec_min(d) as int) >= (n - 1) * mn) by (nonlinear_arith)
            requires
                n >= 1,
                spec_min(d) as int >= mn,
        ;
        assert((n - 1) * (spec_max(d) as int) <= (n - 1) * mx) by (nonlinear_arith)
            requires
                n >= 1,
                spec_max(d) as int <= mx,
        ;
        assert((n - 1) * mn + mn == n * mn) by (nonlinear_arith);
        assert((n - 1) * mx + mx == n * mx) by (nonlinear_arith);
    }
}

/// Summary statistics for the probes aimed at one URL, in integer
/// milliseconds; ratios such as the mean latency in seconds or the
/// throughput are left to the presentation layer.
pub struct StatsSummary {
    pub success_count: usize,
    pub failure_count: usize,
    pub total_ms: u128,
    pub min_ms: u64,
    pub max_ms: u64,
}

/// Reduce one URL's outcome flags and latencies to summary statistics:
/// how many probes succeeded and failed, the summed latency, and the
/// least and greatest latency observed.
pub fn compute_stats(statuses: &Vec<bool>, times: &Vec<u64>) -> (s: StatsSummary)
    requires
        statuses@.len() == times@.len(),
        times@.len() >= 1,
    ensures
        s.success_count == spec_count_true(statuses@),
        s.failure_count == statuses@.len() - spec_count_true(statuses@),
        s.total_ms == spec_sum(times@),
        s.min_ms == spec_min(times@),
        s.max_ms == spec_max(times@),
{
    let n = statuses.len();
    let mut success_count: usize = 0;
    let mut total_ms: u128 = 0;
    let mut min_ms: u64 = u64::MAX;
    let mut max_ms: u64 = 0;
    let mut i: usize = 0;
    while i < n
        invariant
            n == statuses@.len(),
            n == times@.len(),
            0 <= i <= n,
            success_count == spec_count_true(statuses@.take(i as int)),
            total_ms == spec_sum(times@.take(i as int)),
            min_ms == spec_min(times@.take(i as int)),
            max_ms == spec_max(times@.take(i as int)),
        decreases n - i,
    {
        proof {
            assert(statuses@.take(i + 1).drop_last() =~= statuses@.take(i as int));
            assert(times@.take(i + 1).drop_last() =~= times@.take(i as int));
            lemma_count_true_bounds(statuses@.take(i as int));
            lemma_sum_bounds(times@.take(i as int));
            assert(spec_sum(times@.take(i as int)) + (times@[i as int] as int) < u128::MAX as int)
                by {
                let m = u64::MAX as int;
                assert((i as int) * m + m == (i + 1) * m) by (nonlinear_arith);
                assert((i + 1) * m <= (n as int) * m) by (nonlinear_arith)
                    requires
                        i + 1 <= n as int,
                        m >= 0,
                ;
                assert((n as int) * m < u128::MAX as int) by (nonlinear_arith)
                    requires
                        0 <= n as int <= u64::MAX as int,
                        m == u64::MAX as int,
                ;
            }
        }
        if statuses[i] {
            success_count = success_count + 1;
        }
        let t = times[i];
        total_ms = total_ms + (t as u128);
        if t < min_ms {
            min_ms = t;
        }
        if t > max_ms {
            max_ms = t;
        }
        i = i + 1;
    }
    proof {
        assert(statuses@.take(n as int) =~= statuses@);
        assert(times@.take(n as int) =~= times@);
        lemma_count_true_bounds(statuses@);
    }
    StatsSummary {
        success_count,
        failure_count: n - success_count,
        total_ms,
        min_ms,
        max_ms,
    }
}

} // verus!
