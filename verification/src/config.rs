//! Process configuration: where to connect and how often to publish.

use vstd::prelude::*;

verus! {

/// The shortest interval, in seconds, that the collector ever waits between
/// two cycles.
pub const MIN_INTERVAL_SECS: u64 = 1;

/// The interval that is applied for a configured interval: the configured
/// value, raised to [`MIN_INTERVAL_SECS`] where it is smaller.
pub open spec fn clamp_interval(configured: u64) -> u64 {
    if configured < MIN_INTERVAL_SECS {
        MIN_INTERVAL_SECS
    } else {
        configured
    }
}

/// The options the collector is started with. They are read once and never
/// change afterwards.
#[derive(Debug)]
pub struct Options {
    /// Address of the transport endpoint, passed through as given.
    pub address: String,
    /// Configured seconds between two cycles; values below one count as one.
    pub update_interval: u64,
}

impl Options {
    /// Options for the given endpoint and configured interval.
    pub fn new(address: String, update_interval: u64) -> (options: Options)
        ensures
            options.address == address,
            options.update_interval == update_interval,
    {
        Options { address, update_interval }
    }

    /// The interval in seconds that the loop applies: never zero, so the loop
    /// cannot spin without waiting.
    pub fn effective_interval(&self) -> (secs: u64)
        ensures
            secs == clamp_interval(self.update_interval),
            secs >= 1,
            self.update_interval >= 1 ==> secs == self.update_interval,
            self.update_interval == 0 ==> secs == 1,
    {
        if self.update_interval < MIN_INTERVAL_SECS {
            MIN_INTERVAL_SECS
        } else {
            self.update_interval
        }
    }
}

} // verus!
