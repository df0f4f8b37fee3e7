//! Conversions between this crate's levels and those of the `log` facade.

use crate::level::LogLevel;
use vstd::prelude::*;

verus! {

/// Declares `log::Level`, an enum of five variants without fields, so that
/// the conversions below can match on it.
#[verifier::external_type_specification]
pub struct ExFacadeLevel(log::Level);

/// Declares `log::LevelFilter`: `Off` and one variant for each level, none
/// with fields.
#[verifier::external_type_specification]
pub struct ExFacadeLevelFilter(log::LevelFilter);

/// The level that a facade level stands for: the one of the same name.
pub open spec fn level_of_facade(level: log::Level) -> LogLevel {
    match level {
        log::Level::Error => LogLevel::Error,
        log::Level::Warn => LogLevel::Warn,
        log::Level::Info => LogLevel::Info,
        log::Level::Debug => LogLevel::Debug,
        log::Level::Trace => LogLevel::Trace,
    }
}

/// The facade filter that lets through exactly the events at least as severe
/// as the level: the one of the same name.
pub open spec fn facade_filter_of(level: LogLevel) -> log::LevelFilter {
    match level {
        LogLevel::Error => log::LevelFilter::Error,
        LogLevel::Warn => log::LevelFilter::Warn,
        LogLevel::Info => log::LevelFilter::Info,
        LogLevel::Debug => log::LevelFilter::Debug,
        LogLevel::Trace => log::LevelFilter::Trace,
    }
}

impl LogLevel {
    /// Converts a level of the `log` facade.
    pub fn from_log_level(level: log::Level) -> (r: LogLevel)
        ensures
            r == level_of_facade(level),
    {
        match level {
            log::Level::Error => LogLevel::Error,
            log::Level::Warn => LogLevel::Warn,
            log::Level::Info => LogLevel::Info,
            log::Level::Debug => LogLevel::Debug,
            log::Level::Trace => LogLevel::Trace,
        }
    }

    /// Converts to the `log` facade's filter of the same name.
    pub fn to_log_level_filter(self) -> (r: log::LevelFilter)
        ensures
            r == facade_filter_of(self),
    {
        match self {
            LogLevel::Error => log::LevelFilter::Error,
            LogLevel::Warn => log::LevelFilter::Warn,
            LogLevel::Info => log::LevelFilter::Info,
            LogLevel::Debug => log::LevelFilter::Debug,
            LogLevel::Trace => log::LevelFilter::Trace,
        }
    }
}

} // verus!
