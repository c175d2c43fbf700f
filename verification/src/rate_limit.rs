//! Rate limiting of source polls and sink writes: the quotas taken from the
//! configuration, and a limiter that lets everything through.
use vstd::prelude::*;
use crate::config::RateLimitConfig;
use crate::text::concat2;

verus! {

/// The per-second quota for source polls: the configured maximum, or 10 000
/// where it is 0.
pub open spec fn source_quota_of(c: RateLimitConfig) -> u32 {
    if c.max_source_tps > 0 {
        c.max_source_tps
    } else {
        10_000
    }
}

/// The per-second quota for sink writes: the configured maximum, or 5 000
/// where it is 0.
pub open spec fn sink_quota_of(c: RateLimitConfig) -> u32 {
    if c.max_sink_tps > 0 {
        c.max_sink_tps
    } else {
        5_000
    }
}

/// See `source_quota_of`.
pub fn source_quota(c: &RateLimitConfig) -> (r: u32)
    ensures
        r == source_quota_of(*c),
        r > 0,
{
    if c.max_source_tps > 0 {
        c.max_source_tps
    } else {
        10_000
    }
}

/// See `sink_quota_of`.
pub fn sink_quota(c: &RateLimitConfig) -> (r: u32)
    ensures
        r == sink_quota_of(*c),
        r > 0,
{
    if c.max_sink_tps > 0 {
        c.max_sink_tps
    } else {
        5_000
    }
}

/// Whether a worker limits its rate: where either maximum is set; otherwise
/// it lets everything through.
pub fn limits_enabled(c: &RateLimitConfig) -> (r: bool)
    ensures
        r == (c.max_source_tps > 0 || c.max_sink_tps > 0),
{
    c.max_source_tps > 0 || c.max_sink_tps > 0
}

/// Statistics about the rate limiting state.
pub struct RateLimitStats {
    pub max_source_tps: u32,
    pub max_sink_tps: u32,
    pub source_available: u32,
    pub sink_available: u32,
}

impl RateLimitStats {
    /// The statistics for `config` with the given available permits.
    pub fn new(config: &RateLimitConfig, source_available: u32, sink_available: u32) -> (r:
        RateLimitStats)
        ensures
            r.max_source_tps == config.max_source_tps,
            r.max_sink_tps == config.max_sink_tps,
            r.source_available == source_available,
            r.sink_available == sink_available,
    {
        RateLimitStats {
            max_source_tps: config.max_source_tps,
            max_sink_tps: config.max_sink_tps,
            source_available,
            sink_available,
        }
    }
}

/// Errors that can occur during rate limiting.
#[derive(Debug)]
pub enum RateLimitError {
    ConfigError { message: String },
    ClockError { message: String },
}

impl RateLimitError {
    /// The error's text.
    pub fn describe(&self) -> (r: String)
        ensures
            self matches RateLimitError::ConfigError { message } ==> r@
                == "Rate limiter configuration error: "@ + message@,
            self matches RateLimitError::ClockError { message } ==> r@ == "Rate limiter clock error: "@
                + message@,
    {
        match self {
            RateLimitError::ConfigError { message } => concat2(
                "Rate limiter configuration error: ",
                message.as_str(),
            ),
            RateLimitError::ClockError { message } => concat2(
                "Rate limiter clock error: ",
                message.as_str(),
            ),
        }
    }
}

/// A rate limiter that allows all operations.
#[derive(Debug, Clone, Copy, Default)]
pub struct NoOpRateLimiter;

impl NoOpRateLimiter {
    /// The limiter (it holds nothing).
    pub fn new() -> (r: NoOpRateLimiter)
        ensures
            r == NoOpRateLimiter,
    {
        NoOpRateLimiter
    }

    /// A source permit, granted at once.
    pub fn wait_for_source_permit(&self) -> (r: Result<(), RateLimitError>)
        ensures
            r is Ok,
    {
        Ok(())
    }

    /// A sink permit, granted at once.
    pub fn wait_for_sink_permit(&self) -> (r: Result<(), RateLimitError>)
        ensures
            r is Ok,
    {
        Ok(())
    }

    /// A source operation may always proceed.
    pub fn can_proceed_source(&self) -> (r: bool)
        ensures
            r,
    {
        true
    }

    /// A sink operation may always proceed.
    pub fn can_proceed_sink(&self) -> (r: bool)
        ensures
            r,
    {
        true
    }
}

} // verus!
