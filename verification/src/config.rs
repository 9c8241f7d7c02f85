//! Request shaping for one download: timeout of the creation request, extra
//! headers, and the advisory read granularity.

use vstd::prelude::*;

verus! {

/// The default user-agent token sent with every request.
pub const DEFAULT_USER_AGENT: &'static str = "ludownloader";

/// The default advisory read granularity: one mebibyte.
pub const DEFAULT_CHUNK_SIZE: usize = 1048576;

/// The default timeout of the creation request, in milliseconds.
pub const DEFAULT_TIMEOUT_MS: u64 = 60000;

/// Request shaping for one download. The timeout applies to the creation
/// request only; the headers are merged into every request; the chunk size is
/// advisory and nothing may depend on the origin honoring it.
#[derive(Debug, Clone)]
pub struct HttpDownloadConfig {
    pub timeout_millis: u64,
    pub headers: Vec<(String, String)>,
    pub chunk_size: usize,
}

impl HttpDownloadConfig {
    /// The defaults: a 60 s timeout, a single user-agent header, a 1 MiB
    /// chunk size.
    pub open spec fn is_default(self) -> bool {
        &&& self.timeout_millis == DEFAULT_TIMEOUT_MS
        &&& self.headers@.len() == 1
        &&& self.headers@[0].0@ == "user-agent"@
        &&& self.headers@[0].1@ == DEFAULT_USER_AGENT@
        &&& self.chunk_size == DEFAULT_CHUNK_SIZE
    }
}

impl HttpDownloadConfig {
    /// An exact copy, rebuilt field by field.
    pub fn duplicate(&self) -> (r: Self)
        ensures
            r.timeout_millis == self.timeout_millis,
            r.chunk_size == self.chunk_size,
            r.headers@ == self.headers@,
    {
        let mut headers: Vec<(String, String)> = Vec::new();
        let n = self.headers.len();
        let mut i: usize = 0;
        while i < n
            invariant
                0 <= i <= n,
                n == self.headers@.len(),
                headers@ =~= self.headers@.subrange(0, i as int),
            decreases n - i,
        {
            let p = &self.headers[i];
            headers.push((p.0.clone(), p.1.clone()));
            proof {
                assert(headers@ =~= self.headers@.subrange(0, i + 1));
            }
            i = i + 1;
        }
        proof {
            assert(headers@ =~= self.headers@);
        }
        HttpDownloadConfig {
            timeout_millis: self.timeout_millis,
            headers,
            chunk_size: self.chunk_size,
        }
    }
}

impl Default for HttpDownloadConfig {
    /// Builds the default configuration.
    fn default() -> (r: Self)
        ensures
            r.is_default(),
    {
        let mut headers: Vec<(String, String)> = Vec::new();
        headers.push((("user-agent").to_owned(), DEFAULT_USER_AGENT.to_owned()));
        HttpDownloadConfig {
            timeout_millis: DEFAULT_TIMEOUT_MS,
            headers,
            chunk_size: DEFAULT_CHUNK_SIZE,
        }
    }
}

} // verus!
