//! An HTTP load-testing engine: a configurable number of GET probes is
//! spread round-robin over a list of target URLs, each probe is timed and
//! classified as success (2xx) or failure, and the results are grouped per
//! URL and reduced to summary statistics.
//!
//! The crate holds the verified core: round-robin assignment, outcome
//! classification, aggregation that loses and duplicates no probe,
//! statistics whose mean always lies between minimum and maximum, and
//! proofs that the statistics do not depend on the arrival order of the
//! results. The HTTP transport and the wall clock stay behind small
//! trusted wrappers; the thread pool, channel plumbing and command line
//! belong to the binary built around the library.

#![allow(unused_imports)]

mod aggregate;
mod config;
mod dispatch;
mod perm;
mod probe;
mod stats;
mod timing;
mod urls;
mod vecmap;

pub use aggregate::aggregate;
pub use aggregate::lemma_keys_complete;
pub use aggregate::lemma_keys_distinct;
pub use aggregate::ProbeRecord;
pub use aggregate::spec_bucket_total;
pub use aggregate::spec_keys;
pub use aggregate::spec_latencies;
pub use aggregate::spec_statuses;
pub use aggregate::UrlBucket;
pub use config::Config;
pub use config::ProbeError;
pub use dispatch::lemma_assigned_count_formula;
pub use dispatch::lemma_assigned_total_complete;
pub use dispatch::lemma_round_robin_bucket_sizes;
pub use dispatch::lemma_round_robin_distribution;
pub use dispatch::spec_assigned_count;
pub use dispatch::spec_assigned_total;
pub use dispatch::spec_round_robin;
pub use perm::lemma_aggregation_permutation;
pub use perm::lemma_count_true_permutation;
pub use perm::lemma_min_max_permutation;
pub use perm::lemma_sum_permutation;
pub use probe::classify_outcome;
pub use probe::classify_status;
pub use probe::run_probe;
pub use probe::spec_is_success;
pub use probe::spec_outcome_success;
pub use stats::compute_stats;
pub use stats::lemma_count_true_bounds;
pub use stats::lemma_latency_order;
pub use stats::lemma_min_max_members;
pub use stats::lemma_sum_bounds;
pub use stats::spec_count_true;
pub use stats::spec_max;
pub use stats::spec_min;
pub use stats::spec_sum;
pub use stats::StatsSummary;
pub use timing::elapsed_between;
pub use timing::get_time_millis;
pub use urls::parse_url_lines;
pub use urls::spec_clean_lines;
pub use urls::spec_split_state;
pub use urls::spec_strip_cr;
pub use urls::spec_url_lines;
pub use vecmap::add_to_vector_map;
pub use vecmap::VecMap;
