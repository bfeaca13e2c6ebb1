use vstd::prelude::*;
use vstd::multiset::Multiset;
use vstd::multiset::group_multiset_axioms;
use vstd::multiset::lemma_multiset_empty_len;
use vstd::seq_lib::commutative_foldr;
use vstd::seq_lib::group_to_multiset_ensures;
use vstd::seq_lib::lemma_fold_right_permutation;
use crate::aggregate::ProbeRecord;
use crate::aggregate::spec_latencies;
use crate::aggregate::spec_statuses;
use crate::stats::lemma_min_max_members;
use crate::stats::spec_count_true;
use crate::stats::spec_max;
use crate::stats::spec_min;
use crate::stats::spec_sum;

verus! {

spec fn fold_sum() -> spec_fn(u64, int) -> int {
    |a: u64, acc: int| a + acc
}

spec fn fold_count() -> spec_fn(bool, int) -> int {
    |a: bool, acc: int|
        acc + if a {
            1int
        } else {
            0int
        }
}

spec fn fold_statuses(key: usize) -> spec_fn(ProbeRecord, Multiset<bool>) -> Multiset<bool> {
    |r: ProbeRecord, m: Multiset<bool>|
        if r.url_index == key {
            m.insert(r.success)
        } else {
            m
        }
}

spec fn fold_latencies(key: usize) -> spec_fn(ProbeRecord, Multiset<u64>) -> Multiset<u64> {
    |r: ProbeRecord, m: Multiset<u64>|
        if r.url_index == key {
            m.insert(r.elapsed_ms)
        } else {
            m
        }
}

proof fn lemma_fold_sum_commutative()
    ensures
        commutative_foldr(fold_sum()),
{
}

proof fn lemma_fold_count_commutative()
    ensures
        commutative_foldr(fold_count()),
{
}

proof fn lemma_fold_statuses_commutative(key: usize)
    ensures
        commutative_foldr(fold_statuses(key)),
{
    broadcast use group_multiset_axioms;

    let f = fold_statuses(key);
    assert forall|x: ProbeRecord, y: ProbeRecord, v: Multiset<bool>| #[trigger] f(x, f(y, v)) == f(
        y,
        f(x, v),
    ) by {
        if x.url_index == key && y.url_index == key {
            assert(v.insert(y.success).insert(x.success) =~= v.insert(x.success).insert(
                y.success,
            ));
        }
    }
}

proof fn lemma_fold_latencies_commutative(key: usize)
    ensures
        commutative_foldr(fold_latencies(key)),
{
    broadcast use group_multiset_axioms;

    let f = fold_latencies(key);
    assert forall|x: ProbeRecord, y: ProbeRecord, v: Multiset<u64>| #[trigger] f(x, f(y, v)) == f(
        y,
        f(x, v),
    ) by {
        if x.url_index == key && y.url_index == key {
            assert(v.insert(y.elapsed_ms).insert(x.elapsed_ms) =~= v.insert(x.elapsed_ms).insert(
                y.elapsed_ms,
            ));
        }
    }
}

proof fn lemma_sum_as_fold(s: Seq<u64>, b: int)
    ensures
        s.fold_right(fold_sum(), b) == spec_sum(s) + b,
    decreases s.len(),
{
    if s.len() > 0 {
        lemma_sum_as_fold(s.drop_last(), fold_sum()(s.last(), b));
    }
}

proof fn lemma_count_as_fold(s: Seq<bool>, b: int)
    ensures
        s.fold_right(fold_count(), b) == spec_count_true(s) + b,
    decreases s.len(),
{
    if s.len() > 0 {
        lemma_count_as_fold(s.drop_last(), fold_count()(s.last(), b));
    }
}

proof fn lemma_statuses_as_fold(rs: Seq<ProbeRecord>, key: usize, m: Multiset<bool>)
    ensures
        rs.fold_right(fold_statuses(key), m) == spec_statuses(rs, key).to_multiset().add(m),
    decreases rs.len(),
{
    broadcast use group_multiset_axioms;
    broadcast use group_to_multiset_ensures;
    broadcast use lemma_multiset_empty_len;

    let f = fold_statuses(key);
    if rs.len() == 0 {
        assert(spec_statuses(rs, key).to_multiset().len() == 0);
        assert(spec_statuses(rs, key).to_multiset().add(m) =~= m);
    } else {
        let d = rs.drop_last();
        let r = rs.last();
        lemma_statuses_as_fold(d, key, f(r, m));
        if r.url_index == key {
            assert(spec_statuses(rs, key) == spec_statuses(d, key).push(r.success));
            assert(spec_statuses(d, key).to_multiset().add(m.insert(r.success)) =~= spec_statuses(
                d,
                key,
            ).to_multiset().insert(r.success).add(m));
        }
    }
}

proof fn lemma_latencies_as_fold(rs: Seq<ProbeRecord>, key: usize, m: Multiset<u64>)
    ensures
        rs.fold_right(fold_latencies(key), m) == spec_latencies(rs, key).to_multiset().add(m),
    decreases rs.len(),
{
    broadcast use group_multiset_axioms;
    broadcast use group_to_multiset_ensures;
    broadcast use lemma_multiset_empty_len;

    let f = fold_latencies(key);
    if rs.len() == 0 {
        assert(spec_latencies(rs, key).to_multiset().len() == 0);
        assert(spec_latencies(rs, key).to_multiset().add(m) =~= m);
    } else {
        let d = rs.drop_last();
        let r = rs.last();
        lemma_latencies_as_fold(d, key, f(r, m));
        if r.url_index == key {
            assert(spec_latencies(rs, key) == spec_latencies(d, key).push(r.elapsed_ms));
            assert(spec_latencies(d, key).to_multiset().add(m.insert(r.elapsed_ms))
                =~= spec_latencies(d, key).to_multiset().insert(r.elapsed_ms).add(m));
        }
    }
}

/// The number of `true` flags in a sequence depends only on which flags the
/// sequence holds, not on their order.
pub proof fn lemma_count_true_permutation(s1: Seq<bool>, s2: Seq<bool>)
    requires
        s1.to_multiset() == s2.to_multiset(),
    ensures
        spec_count_true(s1) == spec_count_true(s2),
{
    lemma_fold_count_commutative();
    lemma_fold_right_permutation(s1, s2, fold_count(), 0);
    lemma_count_as_fold(s1, 0);
    lemma_count_as_fold(s2, 0);
}

/// The sum of a latency sequence depends only on which latencies the
/// sequence holds, not on their order.
pub proof fn lemma_sum_permutation(s1: Seq<u64>, s2: Seq<u64>)
    requires
        s1.to_multiset() == s2.to_multiset(),
    ensures
        spec_sum(s1) == spec_sum(s2),
{
    lemma_fold_sum_commutative();
    lemma_fold_right_permutation(s1, s2, fold_sum(), 0);
    lemma_sum_as_fold(s1, 0);
    lemma_sum_as_fold(s2, 0);
}

/// The least and greatest element of a latency sequence depend only on
/// which latencies the sequence holds, not on their order.
pub proof fn lemma_min_max_permutation(s1: Seq<u64>, s2: Seq<u64>)
    requires
        s1.to_multiset() == s2.to_multiset(),
    ensures
        spec_min(s1) == spec_min(s2),
        spec_max(s1) == spec_max(s2),
{
    broadcast use group_to_multiset_ensures;

    assert(s1.to_multiset().len() == s1.len());
    assert(s2.to_multiset().len() == s2.len());
    if s1.len() == 0 {
        assert(s2.len() == 0);
    } else {
        lemma_min_max_members(s1);
        lemma_min_max_members(s2);
        assert(s1.to_multiset().contains(spec_min(s1)));
        assert(s2.contains(spec_min(s1)));
        assert(s1.to_multiset().contains(spec_max(s1)));
        assert(s2.contains(spec_max(s1)));
        assert(s2.to_multiset().contains(spec_min(s2)));
        assert(s1.contains(spec_min(s2)));
        assert(s2.to_multiset().contains(spec_max(s2)));
        assert(s1.contains(spec_max(s2)));
        let i1 = choose|i: int| 0 <= i < s2.len() && s2[i] == spec_min(s1);
        let i2 = choose|i: int| 0 <= i < s1.len() && s1[i] == spec_min(s2);
        assert(spec_min(s2) <= s2[i1]);
        assert(spec_min(s1) <= s1[i2]);
        let j1 = choose|i: int| 0 <= i < s2.len() && s2[i] == spec_max(s1);
        let j2 = choose|i: int| 0 <= i < s1.len() && s1[i] == spec_max(s2);
        assert(spec_max(s2) >= s2[j1]);
        assert(spec_max(s1) >= s1[j2]);
    }
}

/// Re-running the aggregation on the same captured results, in any order of
/// arrival, yields the same statistics for every URL: the collected outcome
/// flags and latencies for each URL index are the same up to order, and so
/// the probe count, success count, summed latency, and least and greatest
/// latency of every URL are identical.
pub proof fn lemma_aggregation_permutation(rs1: Seq<ProbeRecord>, rs2: Seq<ProbeRecord>, key: usize)
    requires
        rs1.to_multiset() == rs2.to_multiset(),
    ensures
        spec_statuses(rs1, key).to_multiset() == spec_statuses(rs2, key).to_multiset(),
        spec_latencies(rs1, key).to_multiset() == spec_latencies(rs2, key).to_multiset(),
        spec_statuses(rs1, key).len() == spec_statuses(rs2, key).len(),
        spec_count_true(spec_statuses(rs1, key)) == spec_count_true(spec_statuses(rs2, key)),
        spec_sum(spec_latencies(rs1, key)) == spec_sum(spec_latencies(rs2, key)),
        spec_min(spec_latencies(rs1, key)) == spec_min(spec_latencies(rs2, key)),
        spec_max(spec_latencies(rs1, key)) == spec_max(spec_latencies(rs2, key)),
{
    broadcast use group_multiset_axioms;
    broadcast use group_to_multiset_ensures;

    assert(spec_statuses(rs1, key).to_multiset().len() == spec_statuses(rs1, key).len());
    assert(spec_statuses(rs2, key).to_multiset().len() == spec_statuses(rs2, key).len());
    lemma_fold_statuses_commutative(key);
    lemma_fold_right_permutation(rs1, rs2, fold_statuses(key), Multiset::<bool>::empty());
    lemma_statuses_as_fold(rs1, key, Multiset::<bool>::empty());
    lemma_statuses_as_fold(rs2, key, Multiset::<bool>::empty());
    assert(spec_statuses(rs1, key).to_multiset() =~= spec_statuses(rs1, key).to_multiset().add(
        Multiset::<bool>::empty(),
    ));
    assert(spec_statuses(rs2, key).to_multiset() =~= spec_statuses(rs2, key).to_multiset().add(
        Multiset::<bool>::empty(),
    ));

    lemma_fold_latencies_commutative(key);
    lemma_fold_right_permutation(rs1, rs2, fold_latencies(key), Multiset::<u64>::empty());
    lemma_latencies_as_fold(rs1, key, Multiset::<u64>::empty());
    lemma_latencies_as_fold(rs2, key, Multiset::<u64>::empty());
    assert(spec_latencies(rs1, key).to_multiset() =~= spec_latencies(rs1, key).to_multiset().add(
        Multiset::<u64>::empty(),
    ));
    assert(spec_latencies(rs2, key).to_multiset() =~= spec_latencies(rs2, key).to_multiset().add(
        Multiset::<u64>::empty(),
    ));

    lemma_count_true_permutation(spec_statuses(rs1, key), spec_statuses(rs2, key));
    lemma_sum_permutation(spec_latencies(rs1, key), spec_latencies(rs2, key));
    lemma_min_max_permutation(spec_latencies(rs1, key), spec_latencies(rs2, key));
}

} // verus!
