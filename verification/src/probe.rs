use vstd::prelude::*;
use crate::aggregate::ProbeRecord;
use crate::config::Config;
use crate::config::ProbeError;
use crate::timing::elapsed_between;
use crate::timing::get_time_millis;

verus! {

/// Success classification of an HTTP status code: precisely the 2xx range.
pub open spec fn spec_is_success(code: u16) -> bool {
    200 <= code < 300
}

/// Success classification of a whole probe outcome: a response was
/// obtained and its status code lies in the 2xx range. A non-2xx response
/// (404, 500, ...) and a transport failure both count as failures.
pub open spec fn spec_outcome_success(outcome: Result<u16, ProbeError>) -> bool {
    match outcome {
        Ok(code) => spec_is_success(code),
        Err(_) => false,
    }
}

/// Decide whether a status code counts as a success (2xx).
pub fn classify_status(code: u16) -> (r: bool)
    ensures
        r == spec_is_success(code),
{
    200 <= code && code < 300
}

/// Decide whether a probe outcome counts as a success: HTTP 200 is a
/// success, HTTP 404 or 500 is a failure, and so is a connection that
/// could not be made at all.
pub fn classify_outcome(outcome: &Result<u16, ProbeError>) -> (r: bool)
    ensures
        r == spec_outcome_success(*outcome),
{
    match outcome {
        Ok(code) => classify_status(*code),
        Err(_) => false,
    }
}

/// Issue one probe: pick the round-robin URL for `probe_index`, time one
/// blocking GET against it, and classify the outcome. Every call returns
/// exactly one record, whatever the network did, and the record carries
/// the round-robin URL index of the probe.
pub fn run_probe(config: &Config, probe_index: usize) -> (r: ProbeRecord)
    requires
        config.wf(),
    ensures
        r.url_index == probe_index as int % config.spec_urls().len() as int,
        r.url_index < config.spec_urls().len(),
{
    let idx = config.url_index_for(probe_index);
    let start = get_time_millis();
    let outcome = config.status(idx);
    let success = classify_outcome(&outcome);
    let end = get_time_millis();
    ProbeRecord { url_index: idx, success, elapsed_ms: elapsed_between(start, end) }
}

} // verus!
