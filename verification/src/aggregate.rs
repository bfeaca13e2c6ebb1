use vstd::prelude::*;

verus! {

/// One message produced per dispatched probe: the index (in the
/// configuration's URL list) of the URL the probe was assigned to, whether
/// the probe succeeded, and how long it took in milliseconds.
#[derive(PartialEq, Eq, Structural, Clone, Copy, Debug)]
pub struct ProbeRecord {
    pub url_index: usize,
    pub success: bool,
    pub elapsed_ms: u64,
}

/// The distinct URL indices occurring in `rs`, in order of first arrival.
pub open spec fn spec_keys(rs: Seq<ProbeRecord>) -> Seq<usize>
    decreases rs.len(),
{
    if rs.len() == 0 {
        Seq::empty()
    } else {
        let k = spec_keys(rs.drop_last());
        if k.contains(rs.last().url_index) {
            k
        } else {
            k.push(rs.last().url_index)
        }
    }
}

/// Outcome flags of the probes assigned to URL index `key`, in arrival order.
pub open spec fn spec_statuses(rs: Seq<ProbeRecord>, key: usize) -> Seq<bool>
    decreases rs.len(),
{
    if rs.len() == 0 {
        Seq::empty()
    } else {
        let d = spec_statuses(rs.drop_last(), key);
        if rs.last().url_index == key {
            d.push(rs.last().success)
        } else {
            d
        }
    }
}

/// Latencies of the probes assigned to URL index `key`, in arrival order.
pub open spec fn spec_latencies(rs: Seq<ProbeRecord>, key: usize) -> Seq<u64>
    decreases rs.len(),
{
    if rs.len() == 0 {
        Seq::empty()
    } else {
        let d = spec_latencies(rs.drop_last(), key);
        if rs.last().url_index == key {
            d.push(rs.last().elapsed_ms)
        } else {
            d
        }
    }
}

/// The collected outcomes for one URL: the URL's index in the
/// configuration's list, and the outcome flags and latencies of its probes
/// in arrival order.
pub struct UrlBucket {
    pub url_index: usize,
    pub statuses: Vec<bool>,
    pub latencies: Vec<u64>,
}

/// Total number of probe outcomes held across all buckets.
pub open spec fn spec_bucket_total(bs: Seq<UrlBucket>) -> int
    decreases bs.len(),
{
    if bs.len() == 0 {
        0
    } else {
        spec_bucket_total(bs.drop_last()) + bs.last().statuses@.len()
    }
}

/// A URL index never appears twice among the grouping keys.
pub proof fn lemma_keys_distinct(rs: Seq<ProbeRecord>)
    ensures
        spec_keys(rs).no_duplicates(),
    decreases rs.len(),
{
    if rs.len() > 0 {
        lemma_keys_distinct(rs.drop_last());
        let k = spec_keys(rs.drop_last());
        let x = rs.last().url_index;
        if !k.contains(x) {
            assert forall|i: int| 0 <= i < k.len() implies k[i] != x by {
                if k[i] == x {
                    assert(k.contains(x));
                }
            }
            assert(k.push(x).no_duplicates());
        }
    }
}

/// Every probe's URL index is among the grouping keys.
pub proof fn lemma_keys_complete(rs: Seq<ProbeRecord>, i: int)
    requires
        0 <= i < rs.len(),
    ensures
        spec_keys(rs).contains(rs[i].url_index),
    decreases rs.len(),
{
    let d = rs.drop_last();
    let k = spec_keys(d);
    let x = rs.last().url_index;
    if i == rs.len() - 1 {
        if k.contains(x) {
        } else {
            assert(k.push(x)[k.len() as int] == x);
        }
    } else {
        lemma_keys_complete(d, i);
        assert(d[i] == rs[i]);
        let j = choose|j: int| 0 <= j < k.len() && k[j] == d[i].url_index;
        if k.contains(x) {
        } else {
            assert(k.push(x)[j] == k[j]);
        }
    }
}

proof fn lemma_total_update(bs: Seq<UrlBucket>, j: int, b: UrlBucket)
    requires
        0 <= j < bs.len(),
    ensures
        spec_bucket_total(bs.update(j, b)) == spec_bucket_total(bs) - bs[j].statuses@.len()
            + b.statuses@.len(),
    decreases bs.len(),
{
    if j == bs.len() - 1 {
        assert(bs.update(j, b).drop_last() =~= bs.drop_last());
        assert(bs.update(j, b).last() == b);
    } else {
        lemma_total_update(bs.drop_last(), j, b);
        assert(bs.update(j, b).drop_last() =~= bs.drop_last().update(j, b));
        assert(bs.update(j, b).last() == bs.last());
    }
}

/// Group probe results by their URL index, in order of first arrival.
///
/// Every result lands in exactly one bucket, so no probe is lost or double
/// counted: the bucket sizes sum to the number of results received.
pub fn aggregate(results: &Vec<ProbeRecord>) -> (buckets: Vec<UrlBucket>)
    ensures
        buckets@.len() == spec_keys(results@).len(),
        forall|j: int|
            0 <= j < buckets@.len() ==> (#[trigger] buckets@[j]).url_index == spec_keys(
                results@,
            )[j],
        forall|j: int|
            0 <= j < buckets@.len() ==> (#[trigger] buckets@[j]).statuses@ == spec_statuses(
                results@,
                buckets@[j].url_index,
            ) && buckets@[j].latencies@ == spec_latencies(results@, buckets@[j].url_index),
        forall|j: int|
            0 <= j < buckets@.len() ==> (#[trigger] buckets@[j]).statuses@.len() >= 1
                && buckets@[j].latencies@.len() == buckets@[j].statuses@.len(),
        spec_bucket_total(buckets@) == results@.len(),
{
    let n = results.len();
    let mut buckets: Vec<UrlBucket> = Vec::new();
    let mut i: usize = 0;
    while i < n
        invariant
            n == results@.len(),
            0 <= i <= n,
            buckets@.len() == spec_keys(results@.take(i as int)).len(),
            forall|j: int|
                0 <= j < buckets@.len() ==> (#[trigger] buckets@[j]).url_index == spec_keys(
                    results@.take(i as int),
                )[j],
            forall|j: int|
                0 <= j < buckets@.len() ==> (#[trigger] buckets@[j]).statuses@ == spec_statuses(
                    results@.take(i as int),
                    buckets@[j].url_index,
                ) && buckets@[j].latencies@ == spec_latencies(
                    results@.take(i as int),
                    buckets@[j].url_index,
                ),
            forall|j: int|
                0 <= j < buckets@.len() ==> (#[trigger] buckets@[j]).statuses@.len() >= 1
                    && buckets@[j].latencies@.len() == buckets@[j].statuses@.len(),
            spec_bucket_total(buckets@) == i,
        decreases n - i,
    {
        let r = results[i];
        let k = r.url_index;
        proof {
            assert(results@.take(i + 1).drop_last() =~= results@.take(i as int));
            assert(results@.take(i + 1).last() == results@[i as int]);
            lemma_keys_distinct(results@.take(i as int));
        }
        let mut j: usize = 0;
        while j < buckets.len() && buckets[j].url_index != k
            invariant
                0 <= j <= buckets@.len(),
                forall|jj: int| 0 <= jj < j ==> (#[trigger] buckets@[jj]).url_index != k,
            decreases buckets@.len() - j,
        {
            j = j + 1;
        }
        let ghost keys0 = spec_keys(results@.take(i as int));
        let ghost bs0 = buckets@;
        if j < buckets.len() {
            proof {
                assert(keys0[j as int] == k);
                assert(keys0.contains(k));
                assert(spec_keys(results@.take(i + 1)) == keys0);
            }
            let mut b = buckets.remove(j);
            b.statuses.push(r.success);
            b.latencies.push(r.elapsed_ms);
            buckets.insert(j, b);
            proof {
                let b2 = buckets@[j as int];
                assert(buckets@ =~= bs0.update(j as int, b2));
                lemma_total_update(bs0, j as int, b2);
                assert forall|jj: int|
                    0 <= jj < buckets@.len() implies (#[trigger] buckets@[jj]).statuses@
                    == spec_statuses(results@.take(i + 1), buckets@[jj].url_index) && buckets@[
                jj].latencies@ == spec_latencies(results@.take(i + 1), buckets@[jj].url_index) by {
                    if jj == j {
                    } else {
                        assert(buckets@[jj] == bs0[jj]);
                        assert(keys0[jj] == bs0[jj].url_index);
                        assert(keys0[j as int] == k);
                        assert(bs0[jj].url_index != k);
                    }
                }
            }
        } else {
            proof {
                assert forall|jj: int| 0 <= jj < keys0.len() implies keys0[jj] != k by {
                    assert(keys0[jj] == bs0[jj].url_index);
                }
                if keys0.contains(k) {
                    let w = choose|w: int| 0 <= w < keys0.len() && keys0[w] == k;
                    assert(false);
                }
                assert(spec_keys(results@.take(i + 1)) == keys0.push(k));
            }
            let mut statuses: Vec<bool> = Vec::new();
            statuses.push(r.success);
            let mut latencies: Vec<u64> = Vec::new();
            latencies.push(r.elapsed_ms);
            buckets.push(UrlBucket { url_index: k, statuses, latencies });
            proof {
                assert(buckets@.drop_last() =~= bs0);
                assert forall|jj: int|
                    0 <= jj < buckets@.len() implies (#[trigger] buckets@[jj]).statuses@
                    == spec_statuses(results@.take(i + 1), buckets@[jj].url_index) && buckets@[
                jj].latencies@ == spec_latencies(results@.take(i + 1), buckets@[jj].url_index) by {
                    if jj < bs0.len() {
                        assert(buckets@[jj] == bs0[jj]);
                        assert(keys0[jj] == bs0[jj].url_index);
                        assert(bs0[jj].url_index != k);
                    } else {
                        assert(buckets@[jj].url_index == k);
                        assert(spec_statuses(results@.take(i as int), k) =~= Seq::<bool>::empty())
                            by {
                            lemma_statuses_empty_when_unknown(results@.take(i as int), k, keys0);
                        }
                        assert(spec_latencies(results@.take(i as int), k) =~= Seq::<u64>::empty())
                            by {
                            lemma_statuses_empty_when_unknown(results@.take(i as int), k, keys0);
                        }
                    }
                }
            }
        }
        i = i + 1;
    }
    proof {
        assert(results@.take(n as int) =~= results@);
    }
    buckets
}

/// A URL index that is not among the grouping keys has no collected
/// outcomes and no collected latencies.
proof fn lemma_statuses_empty_when_unknown(rs: Seq<ProbeRecord>, key: usize, ks: Seq<usize>)
    requires
        ks == spec_keys(rs),
        !ks.contains(key),
    ensures
        spec_statuses(rs, key) == Seq::<bool>::empty(),
        spec_latencies(rs, key) == Seq::<u64>::empty(),
    decreases rs.len(),
{
    if rs.len() > 0 {
        let d = rs.drop_last();
        let kd = spec_keys(d);
        let x = rs.last().url_index;
        assert(!kd.contains(key)) by {
            if kd.contains(key) {
                let w = choose|w: int| 0 <= w < kd.len() && kd[w] == key;
                if kd.contains(x) {
                    assert(spec_keys(rs)[w] == key);
                } else {
                    assert(spec_keys(rs)[w] == key);
                }
                assert(spec_keys(rs).contains(key));
            }
        }
        lemma_statuses_empty_when_unknown(d, key, kd);
        assert(x != key) by {
            if x == key {
                if kd.contains(x) {
                    assert(spec_keys(rs).contains(key));
                } else {
                    assert(spec_keys(rs)[kd.len() as int] == x);
                    assert(spec_keys(rs).contains(key));
                }
            }
        }
    }
}

} // verus!
