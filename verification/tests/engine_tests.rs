use httploadtesting::add_to_vector_map;
use httploadtesting::aggregate;
use httploadtesting::classify_outcome;
use httploadtesting::classify_status;
use httploadtesting::compute_stats;
use httploadtesting::elapsed_between;
use httploadtesting::get_time_millis;
use httploadtesting::parse_url_lines;
use httploadtesting::Config;
use httploadtesting::ProbeError;
use httploadtesting::ProbeRecord;
use httploadtesting::VecMap;

fn record(url_index: usize, success: bool, elapsed_ms: u64) -> ProbeRecord {
    ProbeRecord { url_index, success, elapsed_ms }
}

#[test]
fn config_getters() {
    let urls = vec![String::from("http://a"), String::from("http://b")];
    let config = Config::new(urls, 10, 4);
    assert_eq!(config.number(), 10);
    assert_eq!(config.threads(), 4);
    assert_eq!(config.urls_len(), 2);
    assert_eq!(config.url(0), "http://a");
    assert_eq!(config.url(1), "http://b");
}

#[test]
fn round_robin_assignment() {
    let urls = vec![
        String::from("http://a"),
        String::from("http://b"),
        String::from("http://c"),
    ];
    let config = Config::new(urls, 7, 1);
    let mut counts = [0usize; 3];
    for i in 0..7 {
        let idx = config.url_index_for(i);
        assert_eq!(idx, i % 3);
        counts[idx] += 1;
    }
    assert_eq!(counts, [3, 2, 2]);
}

#[test]
fn classify_status_ranges() {
    assert!(classify_status(200));
    assert!(classify_status(201));
    assert!(classify_status(299));
    assert!(!classify_status(199));
    assert!(!classify_status(300));
    assert!(!classify_status(404));
    assert!(!classify_status(500));
}

#[test]
fn classify_outcome_cases() {
    assert!(classify_outcome(&Ok(200)));
    assert!(!classify_outcome(&Ok(404)));
    assert!(!classify_outcome(&Ok(500)));
    assert!(!classify_outcome(&Err(ProbeError)));
}

#[test]
fn elapsed_clamps() {
    assert_eq!(elapsed_between(100, 150), 50);
    assert_eq!(elapsed_between(150, 100), 0);
    assert_eq!(elapsed_between(100, 100), 0);
    assert_eq!(elapsed_between(0, u64::MAX as u128 + 10), u64::MAX);
}

#[test]
fn clock_reads() {
    let t = get_time_millis();
    assert!(t > 0);
}

#[test]
fn single_success_scenario() {
    // One probe, one URL answering 200 in 50 ms.
    let results = vec![record(0, true, 50)];
    let buckets = aggregate(&results);
    assert_eq!(buckets.len(), 1);
    assert_eq!(buckets[0].url_index, 0);
    let stats = compute_stats(&buckets[0].statuses, &buckets[0].latencies);
    assert_eq!(stats.success_count, 1);
    assert_eq!(stats.failure_count, 0);
    assert_eq!(stats.min_ms, 50);
    assert_eq!(stats.max_ms, 50);
    assert_eq!(stats.total_ms, 50);
    let count = buckets[0].statuses.len();
    let mean_seconds = stats.total_ms as f64 / 1000.0 / count as f64;
    assert_eq!(mean_seconds, 0.05);
    assert_eq!(stats.min_ms as f64 / 1000.0, 0.05);
    assert_eq!(stats.max_ms as f64 / 1000.0, 0.05);
}

#[test]
fn all_failures_scenario() {
    // Four probes over two URLs, none of which could be reached.
    let results = vec![
        record(0, false, 3),
        record(1, false, 4),
        record(0, false, 5),
        record(1, false, 6),
    ];
    let buckets = aggregate(&results);
    assert_eq!(buckets.len(), 2);
    for bucket in &buckets {
        let stats = compute_stats(&bucket.statuses, &bucket.latencies);
        assert_eq!(stats.success_count, 0);
        assert_eq!(stats.failure_count, 2);
    }
}

#[test]
fn empty_run_has_no_buckets() {
    let results: Vec<ProbeRecord> = Vec::new();
    let buckets = aggregate(&results);
    assert!(buckets.is_empty());
}

#[test]
fn no_probe_lost_or_duplicated() {
    // Seven probes round-robined over three URLs: bucket sizes are 3, 2, 2
    // and sum to the probe count.
    let mut results = Vec::new();
    for i in 0..7 {
        results.push(record(i % 3, i % 2 == 0, 10 + i as u64));
    }
    let buckets = aggregate(&results);
    assert_eq!(buckets.len(), 3);
    let sizes: Vec<usize> = buckets.iter().map(|b| b.statuses.len()).collect();
    assert_eq!(sizes, vec![3, 2, 2]);
    let total: usize = buckets.iter().map(|b| b.statuses.len()).sum();
    assert_eq!(total, 7);
    for bucket in &buckets {
        let stats = compute_stats(&bucket.statuses, &bucket.latencies);
        assert_eq!(stats.success_count + stats.failure_count, bucket.statuses.len());
    }
}

#[test]
fn statistics_ignore_arrival_order() {
    let results = vec![
        record(0, true, 10),
        record(1, false, 20),
        record(0, false, 30),
        record(0, true, 40),
    ];
    let permuted = vec![
        record(0, true, 40),
        record(0, false, 30),
        record(1, false, 20),
        record(0, true, 10),
    ];
    let buckets_a = aggregate(&results);
    let buckets_b = aggregate(&permuted);
    assert_eq!(buckets_a.len(), buckets_b.len());
    for bucket_a in &buckets_a {
        let bucket_b = buckets_b
            .iter()
            .find(|b| b.url_index == bucket_a.url_index)
            .expect("bucket for the same URL index");
        let stats_a = compute_stats(&bucket_a.statuses, &bucket_a.latencies);
        let stats_b = compute_stats(&bucket_b.statuses, &bucket_b.latencies);
        assert_eq!(stats_a.success_count, stats_b.success_count);
        assert_eq!(stats_a.failure_count, stats_b.failure_count);
        assert_eq!(stats_a.total_ms, stats_b.total_ms);
        assert_eq!(stats_a.min_ms, stats_b.min_ms);
        assert_eq!(stats_a.max_ms, stats_b.max_ms);
    }
}

#[test]
fn rerun_on_same_results_is_identical() {
    let results = vec![record(0, true, 10), record(1, false, 20), record(0, true, 30)];
    let buckets_a = aggregate(&results);
    let buckets_b = aggregate(&results);
    assert_eq!(buckets_a.len(), buckets_b.len());
    for (a, b) in buckets_a.iter().zip(buckets_b.iter()) {
        assert_eq!(a.url_index, b.url_index);
        assert_eq!(a.statuses, b.statuses);
        assert_eq!(a.latencies, b.latencies);
    }
}

#[test]
fn stats_exact_values() {
    let statuses = vec![true, false, true];
    let times = vec![10u64, 20, 30];
    let stats = compute_stats(&statuses, &times);
    assert_eq!(stats.success_count, 2);
    assert_eq!(stats.failure_count, 1);
    assert_eq!(stats.total_ms, 60);
    assert_eq!(stats.min_ms, 10);
    assert_eq!(stats.max_ms, 30);
    assert!(stats.min_ms as u128 * 3 <= stats.total_ms);
    assert!(stats.total_ms <= stats.max_ms as u128 * 3);
}

#[test]
fn vector_map_append_and_create() {
    let map: VecMap<i32> = VecMap::new();
    let map = add_to_vector_map(map, 0, 123);
    assert_eq!(map.len(), 1);
    assert!(map.contains_key(0));
    assert!(!map.contains_key(7));
    assert_eq!(map.get(0).unwrap()[0], 123);
    let map = add_to_vector_map(map, 0, 456);
    assert_eq!(map.len(), 1);
    assert_eq!(map.get(0).unwrap().as_slice(), &[123, 456]);
    let map = add_to_vector_map(map, 7, 9);
    assert_eq!(map.len(), 2);
    assert_eq!(map.get(7).unwrap().as_slice(), &[9]);
    assert!(map.get(3).is_none());
}

#[test]
fn parse_lines_basic() {
    let text = b"http://a\nhttp://b\n".to_vec();
    let lines = parse_url_lines(&text);
    assert_eq!(lines.len(), 2);
    assert_eq!(lines[0], b"http://a".to_vec());
    assert_eq!(lines[1], b"http://b".to_vec());
}

#[test]
fn parse_lines_skips_empty_and_strips_cr() {
    let text = b"http://a\r\n\nhttp://b".to_vec();
    let lines = parse_url_lines(&text);
    assert_eq!(lines.len(), 2);
    assert_eq!(lines[0], b"http://a".to_vec());
    assert_eq!(lines[1], b"http://b".to_vec());
}

#[test]
fn parse_lines_empty_input() {
    let text: Vec<u8> = Vec::new();
    let lines = parse_url_lines(&text);
    assert!(lines.is_empty());
}

#[test]
fn probe_against_unreachable_url_fails() {
    // A connection that cannot be made is classified as a failure, and the
    // probe still reports exactly one record with its round-robin index.
    let urls = vec![String::from("http://127.0.0.1:1/")];
    let config = Config::new(urls, 1, 1);
    let rec = httploadtesting::run_probe(&config, 0);
    assert_eq!(rec.url_index, 0);
    assert!(!rec.success);
}

#[test]
fn status_against_unreachable_url_is_error() {
    let urls = vec![String::from("http://127.0.0.1:1/")];
    let config = Config::new(urls, 1, 1);
    let outcome = config.status(0);
    assert!(outcome.is_err());
    assert!(!classify_outcome(&outcome));
}
