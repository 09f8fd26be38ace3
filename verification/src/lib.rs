use vstd::prelude::*;

mod address;
mod detector;
mod poll;
mod price;
mod registry;
mod wide;

pub use address::Address;
pub use detector::{compare, Finding, FindingDetail, VenueQuote};
pub use poll::{count_cycles, PollState};
pub use registry::{resolve_pool, Asset, PairRegistry, TrackedPair, VenueResolution};
pub use price::{pool_price, pow10, reserve_price, route_price, unit_amount, DataError};

verus! {

/// Runtime configuration: how often the chain is polled, and the relative
/// tolerance below which two venue prices count as equal.  The tolerance is
/// the exact rational `eps_num / eps_den`.
pub struct Config {
    pub poll_interval_ms: u64,
    pub eps_num: u64,
    pub eps_den: u64,
}

impl Config {
    /// A configuration is usable only with a positive tolerance denominator.
    pub open spec fn wf(&self) -> bool {
        self.eps_den > 0
    }
}

impl Default for Config {
    /// One-second polling and a relative tolerance of one part in a billion.
    fn default() -> (c: Config)
        ensures
            c.poll_interval_ms == 1000,
            c.eps_num == 1,
            c.eps_den == 1000000000,
            c.wf(),
    {
        Config { poll_interval_ms: 1000, eps_num: 1, eps_den: 1000000000 }
    }
}

} // verus!
