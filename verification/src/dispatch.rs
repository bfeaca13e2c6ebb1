use vstd::prelude::*;
use vstd::arithmetic::div_mod::lemma_fundamental_div_mod;
use vstd::arithmetic::div_mod::lemma_fundamental_div_mod_converse;
use vstd::arithmetic::div_mod::lemma_mod_bound;
use vstd::seq_lib::group_to_multiset_ensures;
use crate::aggregate::ProbeRecord;
use crate::aggregate::spec_latencies;
use crate::aggregate::spec_statuses;
use crate::perm::lemma_aggregation_permutation;

verus! {

/// Number of probe indices in `[0, count)` that round-robin assignment over
/// `m` URLs sends to URL index `j` (how many `i` have `i % m == j`).
pub open spec fn spec_assigned_count(count: int, m: int, j: int) -> int
    decreases count,
{
    if count <= 0 {
        0
    } else {
        spec_assigned_count(count - 1, m, j) + if (count - 1) % m == j {
            1int
        } else {
            0int
        }
    }
}

/// Sum of the assigned counts of the URL indices in `[0, j)`.
pub open spec fn spec_assigned_total(count: int, m: int, j: int) -> int
    decreases j,
{
    if j <= 0 {
        0
    } else {
        spec_assigned_total(count, m, j - 1) + spec_assigned_count(count, m, j - 1)
    }
}

/// A result sequence follows round-robin dispatch over `m` URLs: the probe
/// with index `i` was assigned URL index `i % m`.
pub open spec fn spec_round_robin(rs: Seq<ProbeRecord>, m: int) -> bool {
    forall|i: int| 0 <= i < rs.len() ==> (#[trigger] rs[i]).url_index == i % m
}

/// Closed form of the round-robin share: URL index `j` receives
/// `count / m` probes, plus one more when `j < count % m`.
pub proof fn lemma_assigned_count_formula(count: int, m: int, j: int)
    requires
        count >= 0,
        m >= 1,
        0 <= j < m,
    ensures
        spec_assigned_count(count, m, j) == count / m + if j < count % m {
            1int
        } else {
            0int
        },
    decreases count,
{
    if count == 0 {
        lemma_fundamental_div_mod_converse(0, m, 0, 0);
    } else {
        let c = count - 1;
        lemma_assigned_count_formula(c, m, j);
        lemma_fundamental_div_mod(c, m);
        lemma_mod_bound(c, m);
        let q = c / m;
        let r = c % m;
        if r == m - 1 {
            assert(count == (q + 1) * m + 0) by (nonlinear_arith)
                requires
                    c == m * q + r,
                    r == m - 1,
                    count == c + 1,
            ;
            lemma_fundamental_div_mod_converse(count, m, q + 1, 0);
        } else {
            assert(count == q * m + (r + 1)) by (nonlinear_arith)
                requires
                    c == m * q + r,
                    count == c + 1,
            ;
            lemma_fundamental_div_mod_converse(count, m, q, r + 1);
        }
    }
}

proof fn lemma_assigned_total_zero(m: int, j: int)
    requires
        j >= 0,
    ensures
        spec_assigned_total(0, m, j) == 0,
    decreases j,
{
    if j > 0 {
        lemma_assigned_total_zero(m, j - 1);
    }
}

proof fn lemma_assigned_total_step(c: int, m: int, j: int)
    requires
        c >= 0,
        m >= 1,
        0 <= j <= m,
    ensures
        spec_assigned_total(c + 1, m, j) == spec_assigned_total(c, m, j) + if c % m < j {
            1int
        } else {
            0int
        },
    decreases j,
{
    lemma_mod_bound(c, m);
    if j > 0 {
        lemma_assigned_total_step(c, m, j - 1);
    }
}

/// No probe is lost or duplicated by round-robin assignment: the assigned
/// counts of the `m` URL indices sum to the total probe count.
pub proof fn lemma_assigned_total_complete(count: int, m: int)
    requires
        count >= 0,
        m >= 1,
    ensures
        spec_assigned_total(count, m, m) == count,
    decreases count,
{
    if count == 0 {
        lemma_assigned_total_zero(m, m);
    } else {
        lemma_assigned_total_complete(count - 1, m);
        lemma_assigned_total_step(count - 1, m, m);
        lemma_mod_bound(count - 1, m);
    }
}

/// In a round-robin result sequence, URL index `j` owns exactly its
/// assigned share of the collected outcomes and latencies.
pub proof fn lemma_round_robin_bucket_sizes(rs: Seq<ProbeRecord>, m: int, j: usize)
    requires
        m >= 1,
        0 <= j < m,
        spec_round_robin(rs, m),
    ensures
        spec_statuses(rs, j).len() == spec_assigned_count(rs.len() as int, m, j as int),
        spec_latencies(rs, j).len() == spec_assigned_count(rs.len() as int, m, j as int),
    decreases rs.len(),
{
    if rs.len() > 0 {
        let d = rs.drop_last();
        assert(spec_round_robin(d, m)) by {
            assert(forall|i: int| 0 <= i < d.len() ==> d[i] == rs[i]);
        }
        lemma_round_robin_bucket_sizes(d, m, j);
        assert(rs[rs.len() - 1].url_index == (rs.len() - 1) % m);
    }
}

/// Round-robin determinism: however the results are reordered in transit
/// (any permutation of a round-robin dispatched sequence), each URL index
/// `j` ends up with exactly `count / m` collected outcomes, plus one more
/// when `j < count % m`.
pub proof fn lemma_round_robin_distribution(
    rs: Seq<ProbeRecord>,
    delivered: Seq<ProbeRecord>,
    m: int,
    j: usize,
)
    requires
        m >= 1,
        0 <= j < m,
        spec_round_robin(rs, m),
        delivered.to_multiset() == rs.to_multiset(),
    ensures
        spec_statuses(delivered, j).len() == rs.len() as int / m + if (j as int) < rs.len() as int
            % m {
            1int
        } else {
            0int
        },
        spec_latencies(delivered, j).len() == spec_statuses(delivered, j).len(),
{
    broadcast use group_to_multiset_ensures;

    lemma_round_robin_bucket_sizes(rs, m, j);
    lemma_assigned_count_formula(rs.len() as int, m, j as int);
    lemma_aggregation_permutation(rs, delivered, j);
    assert(spec_statuses(rs, j).to_multiset().len() == spec_statuses(rs, j).len());
    assert(spec_statuses(delivered, j).to_multiset().len() == spec_statuses(delivered, j).len());
    assert(spec_latencies(rs, j).to_multiset().len() == spec_latencies(rs, j).len());
    assert(spec_latencies(delivered, j).to_multiset().len() == spec_latencies(
        delivered,
        j,
    ).len());
}

} // verus!
