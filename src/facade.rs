//! The process-wide ceiling kept by the `log` crate.
use vstd::prelude::*;
use crate::level::LevelFilter;

verus! {

/// Relies on log::max_level and on `log::LevelFilter` being `repr(usize)`
/// with `Off` at 0 up to `Trace` at 5.
#[verifier::external_body]
fn log_max_level_rank() -> (r: usize)
    ensures
        r <= 5,
{
    log::max_level() as usize
}

/// Relies on log::set_max_level: it stores the ceiling for later records.
#[verifier::external_body]
fn log_set_max_level(level: LevelFilter) {
    log::set_max_level(
        match level {
            LevelFilter::Off => log::LevelFilter::Off,
            LevelFilter::Error => log::LevelFilter::Error,
            LevelFilter::Warn => log::LevelFilter::Warn,
            LevelFilter::Info => log::LevelFilter::Info,
            LevelFilter::Debug => log::LevelFilter::Debug,
            LevelFilter::Trace => log::LevelFilter::Trace,
        },
    )
}

impl LevelFilter {
    /// The threshold of verbosity rank `n`.
    pub fn from_rank(n: usize) -> (r: LevelFilter)
        requires
            n <= 5,
        ensures
            r.rank() == n,
    {
        match n {
            0 => LevelFilter::Off,
            1 => LevelFilter::Error,
            2 => LevelFilter::Warn,
            3 => LevelFilter::Info,
            4 => LevelFilter::Debug,
            _ => LevelFilter::Trace,
        }
    }
}

/// Returns the current maximum log level.
pub fn max_level() -> (r: LevelFilter) {
    LevelFilter::from_rank(log_max_level_rank())
}

/// Sets the process-wide ceiling that records are held to before any sink
/// sees them.
pub fn set_max_level(level: LevelFilter) {
    log_set_max_level(level)
}

} // verus!
