//! Configuration values supported by `nsqd` for consumers.

use vstd::prelude::*;

verus! {

/// `NsqConfig` contains values supported by `nsqd` for consumers.
///
/// `max_in_flight` is the number of unacknowledged messages the broker may
/// have outstanding on one connection; it becomes the initial ready count
/// sent during the handshake.
pub struct NsqConfig {
    max_in_flight: usize,
}

impl NsqConfig {
    /// The configured max in flight value, for use in specifications.
    pub closed spec fn spec_max_in_flight(&self) -> usize {
        self.max_in_flight
    }

    /// Build a configuration with the given max in flight value.
    pub fn new(max_in_flight: usize) -> (c: NsqConfig)
        ensures
            c.spec_max_in_flight() == max_in_flight,
    {
        NsqConfig { max_in_flight }
    }

    /// Return the current max in flight value.
    #[verifier::when_used_as_spec(spec_max_in_flight)]
    pub fn max_in_flight(&self) -> (n: usize)
        ensures
            n == self.spec_max_in_flight(),
    {
        self.max_in_flight
    }
}

impl Default for NsqConfig {
    /// The default configuration permits one unacknowledged message at a time.
    fn default() -> (c: NsqConfig)
        ensures
            c.spec_max_in_flight() == 1,
    {
        NsqConfig { max_in_flight: 1 }
    }
}

} // verus!
