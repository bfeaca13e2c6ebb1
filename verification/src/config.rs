use vstd::prelude::*;

verus! {

/// The error reported when a probe obtained no HTTP response at all: the
/// transport failed (DNS lookup, refused connection, timeout, TLS, ...).
#[derive(PartialEq, Eq, Structural, Clone, Copy, Debug)]
pub struct ProbeError;

/// reqwest's opaque error type, declared so that the trusted HTTP wrapper
/// can hand it back for verified code to translate into `ProbeError`.
#[verifier::external_type_specification]
#[verifier::external_body]
pub struct ExReqwestError(reqwest::Error);

/// One blocking HTTP GET against `url`.
///
/// Relies on `reqwest::blocking::get`: it performs the request and returns
/// either a response — whose code `Response::status` and
/// `StatusCode::as_u16` read out — or reqwest's error when the transport
/// failed. The outcome depends on the network, so nothing is promised of
/// the returned value.
#[verifier::external_body]
fn http_get_status(url: &str) -> Result<u16, reqwest::Error> {
    match reqwest::blocking::get(url) {
        Ok(resp) => Ok(resp.status().as_u16()),
        Err(e) => Err(e),
    }
}

/// A load-testing run: the target URLs, how many probes to issue in total,
/// and how many worker threads issue them.
#[derive(Clone)]
pub struct Config {
    urls: Vec<String>,
    number: usize,
    threads: usize,
}

impl Config {
    /// The target URLs of the run.
    pub closed spec fn spec_urls(self) -> Seq<String> {
        self.urls@
    }

    /// The total number of probes the run issues.
    pub closed spec fn spec_number(self) -> usize {
        self.number
    }

    /// The size of the worker pool.
    pub closed spec fn spec_threads(self) -> usize {
        self.threads
    }

    /// A configuration is well formed when it holds at least one URL and
    /// uses at least one worker thread.
    pub open spec fn wf(self) -> bool {
        self.spec_urls().len() >= 1 && self.spec_threads() >= 1
    }

    /// Build a configuration from already-resolved settings. The
    /// command-line front end must have produced at least one target URL
    /// and at least one worker thread.
    pub fn new(urls: Vec<String>, number: usize, threads: usize) -> (c: Config)
        requires
            urls@.len() >= 1,
            threads >= 1,
        ensures
            c.wf(),
            c.spec_urls() == urls@,
            c.spec_number() == number,
            c.spec_threads() == threads,
    {
        Config { urls, number, threads }
    }

    /// The total number of probes to issue.
    pub fn number(&self) -> (n: usize)
        ensures
            n == self.spec_number(),
    {
        self.number
    }

    /// The number of worker threads.
    pub fn threads(&self) -> (n: usize)
        ensures
            n == self.spec_threads(),
    {
        self.threads
    }

    /// How many target URLs the run has.
    pub fn urls_len(&self) -> (n: usize)
        ensures
            n == self.spec_urls().len(),
    {
        self.urls.len()
    }

    /// The URL at `index`, as its own string.
    pub fn url(&self, index: usize) -> (r: String)
        requires
            index < self.spec_urls().len(),
        ensures
            r@ == self.spec_urls()[index as int]@,
    {
        self.urls[index].clone()
    }

    /// The URL index that round-robin dispatch assigns to probe
    /// `probe_index`: probe `i` targets URL `i % m` over `m` URLs.
    pub fn url_index_for(&self, probe_index: usize) -> (r: usize)
        requires
            self.wf(),
        ensures
            r == probe_index as int % self.spec_urls().len() as int,
            r < self.spec_urls().len(),
    {
        probe_index % self.urls.len()
    }

    /// The HTTP status of one blocking GET against the URL at `url_index`,
    /// or `ProbeError` when the transport failed and no response arrived.
    /// What comes back depends on the network; the classification of the
    /// outcome is the verified `crate::probe::classify_outcome`.
    pub fn status(&self, url_index: usize) -> (r: Result<u16, ProbeError>)
        requires
            url_index < self.spec_urls().len(),
    {
        match http_get_status(self.urls[url_index].as_str()) {
            Ok(code) => Ok(code),
            Err(_) => Err(ProbeError),
        }
    }
}

} // verus!
