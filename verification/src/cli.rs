//! Configuration carried in from the command line: the refresh interval and
//! the display-mode toggle. Parsing the actual arguments is the caller's
//! business; this module owns the validation rule for the refresh interval.
//!
//! The metric provider derives CPU percentages from the difference between
//! two counter reads, so refreshes that come too close together yield
//! meaningless numbers. The rule chosen here is therefore a lower bound:
//! a requested interval below `MIN_REFRESH_RATE_MS` is raised to that
//! minimum, and anything above it is kept as requested.

use vstd::prelude::*;

verus! {

/// Shortest refresh interval, in milliseconds, at which the metric
/// provider's CPU readings are meaningful.
pub const MIN_REFRESH_RATE_MS: u64 = 500;

/// Interval used when the operator does not ask for one.
pub const DEFAULT_REFRESH_RATE_MS: u64 = 1000;

/// The refresh interval actually used for a requested one: the request,
/// raised to `MIN_REFRESH_RATE_MS` when it falls below it.
pub open spec fn normalized_refresh_rate(requested: u64) -> u64 {
    if requested < MIN_REFRESH_RATE_MS {
        MIN_REFRESH_RATE_MS
    } else {
        requested
    }
}

/// Raises a requested refresh interval to the provider-imposed minimum.
pub fn normalize_refresh_rate(requested: u64) -> (rate: u64)
    ensures
        rate == normalized_refresh_rate(requested),
        rate >= MIN_REFRESH_RATE_MS,
        requested >= MIN_REFRESH_RATE_MS ==> rate == requested,
{
    if requested < MIN_REFRESH_RATE_MS {
        MIN_REFRESH_RATE_MS
    } else {
        requested
    }
}

/// Operator choices for one run: how often to sample, and whether to draw
/// charts or print plain text.
pub struct CommandLineArgs {
    /// Milliseconds between sampling cycles; never below
    /// `MIN_REFRESH_RATE_MS`.
    pub refresh_rate: u64,
    /// True for the graphical chart display, false for line-oriented text.
    pub show_graphs: bool,
}

impl CommandLineArgs {
    /// Builds the configuration from a requested interval and mode toggle,
    /// applying the refresh-rate minimum.
    pub fn new(requested_refresh_rate: u64, show_graphs: bool) -> (args: CommandLineArgs)
        ensures
            args.refresh_rate == normalized_refresh_rate(requested_refresh_rate),
            args.refresh_rate >= MIN_REFRESH_RATE_MS,
            args.show_graphs == show_graphs,
    {
        CommandLineArgs { refresh_rate: normalize_refresh_rate(requested_refresh_rate), show_graphs }
    }
}

} // verus!
