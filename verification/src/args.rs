//! Process-wide startup options. The command line itself is read and parsed
//! outside the library; the library only models the resulting values, which
//! are threaded into each proxy route entry when the table is built.

use vstd::prelude::*;

verus! {

/// The options supplied at startup: the configuration file path and the two
/// proxy diagnostic toggles (outbound request and inbound response logging).
pub struct Args {
    pub config: String,
    pub log_requests: bool,
    pub log_responses: bool,
}

impl Args {
    /// Builds the options record from already-parsed command-line values.
    pub fn new(config: String, log_requests: bool, log_responses: bool) -> (r: Args)
        ensures
            r.config == config,
            r.log_requests == log_requests,
            r.log_responses == log_responses,
    {
        Args { config, log_requests, log_responses }
    }
}

} // verus!
