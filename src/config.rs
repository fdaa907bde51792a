//! Settings of a connection to the archive and of a sync run.

use vstd::prelude::*;

verus! {

/// What the configuration file holds.
#[derive(Debug, Clone)]
pub struct Config {
    /// The server to connect to, without a trailing slash.
    pub server: String,
    /// The user name sent with every request.
    pub username: String,
    /// The password sent with every request.
    pub password: String,
    /// How many requests may be in flight in each phase of a sync.
    pub threads: usize,
    /// Whether the OS of an entry may be guessed from its file names.
    pub beeper_hacks: bool,
    /// Whether the detail files of rejected entries are kept for later.
    pub cache_details: bool,
    /// How many times a failed sync is retried; unlimited when zero.
    pub sync_retry_limit: Option<usize>,
    /// The token for the issue tracker's API.
    pub linear_token: Option<String>,
}

impl Config {
    /// The listing URL of `path` on the server: `<server>/api/listing/<path>`.
    /// An empty path gives the top-level listing of days.
    pub fn listing_url(&self, path: &str) -> (r: String)
        ensures
            r@ == self.server@ + "/api/listing/"@ + path@,
    {
        let mut url = self.server.clone();
        url.append("/api/listing/");
        url.append(path);
        url
    }
}

} // verus!
