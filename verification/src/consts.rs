//! Names and default values shared by the balancer and the counting backend.

use vstd::prelude::*;

verus! {

/// Port the balancer listens on when the configuration gives none.
pub const DEFAULT_PORT: u16 = 8080;

/// Port of the metrics endpoint when the configuration gives none.
pub const DEFAULT_METRICS_PORT: u16 = 8081;

/// Pause between two rounds of health probes, in milliseconds.
pub const HEALTH_CHECK_INTERVAL_MS: u64 = 500;

pub const DEFAULT_STRATEGY: &'static str = "RoundRobin";

pub const ROUND_ROBIN: &'static str = "RoundRobin";

pub const WEIGHTED_ROUND_ROBIN: &'static str = "WeightedRoundRobin";

pub const HASH_BY_REQUEST: &'static str = "HashByRequest";

} // verus!
