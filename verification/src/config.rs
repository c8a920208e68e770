//! The configuration the callers pass through each call: which stats to
//! display, in order. Loading it from a file happens outside; absent or
//! unreadable configuration falls back to these defaults.

use vstd::prelude::*;
use crate::stats::{default_stats, default_stats_seq, StatId};

verus! {

/// Display settings: which stats to show, in order.
#[derive(Debug, Clone, PartialEq, Eq)]
pub struct DisplayConfig {
    pub stats: Vec<StatId>,
}

/// The tool's configuration.
#[derive(Debug, Clone, PartialEq, Eq)]
pub struct Config {
    pub display: DisplayConfig,
}

impl Default for DisplayConfig {
    /// Every stat kind, in display order.
    fn default() -> (r: Self)
        ensures
            r.stats@ == default_stats_seq(),
    {
        DisplayConfig { stats: default_stats() }
    }
}

impl Default for Config {
    /// The default display settings.
    fn default() -> (r: Self)
        ensures
            r.display.stats@ == default_stats_seq(),
    {
        Config { display: DisplayConfig { stats: default_stats() } }
    }
}

} // verus!
