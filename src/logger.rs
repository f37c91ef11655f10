//! The decisions of the logging setup: which records reach standard output,
//! when the log file rolls over, and which level a name stands for.
use vstd::prelude::*;

use crate::text::{eq_ignore_ascii_case, same_ignoring_ascii_case};

verus! {

/// The level of a log record, from the most to the least severe.
#[derive(Clone, Copy, Debug, PartialEq, Eq, Hash, Structural)]
pub enum Level {
    Error,
    Warn,
    Info,
    Debug,
    Trace,
}

/// A bound on log levels; `Off` lets nothing through.
#[derive(Clone, Copy, Debug, PartialEq, Eq, Hash, Structural)]
pub enum LevelFilter {
    Off,
    Error,
    Warn,
    Info,
    Debug,
    Trace,
}

/// What a filter says of a record.
#[derive(Clone, Copy, Debug, PartialEq, Eq, Structural)]
pub enum FilterResponse {
    /// The record is logged, whatever later filters say.
    Accept,
    /// The filter leaves the decision to the others.
    Neutral,
    /// The record is not logged.
    Reject,
}

/// The verbosity of a record's level: 1 for errors up to 5 for traces.
pub open spec fn level_rank(l: Level) -> nat {
    match l {
        Level::Error => 1,
        Level::Warn => 2,
        Level::Info => 3,
        Level::Debug => 4,
        Level::Trace => 5,
    }
}

/// The verbosity of a bound: 0 for `Off` up to 5 for traces.
pub open spec fn filter_rank(f: LevelFilter) -> nat {
    match f {
        LevelFilter::Off => 0,
        LevelFilter::Error => 1,
        LevelFilter::Warn => 2,
        LevelFilter::Info => 3,
        LevelFilter::Debug => 4,
        LevelFilter::Trace => 5,
    }
}

fn rank_of_level(l: Level) -> (r: u8)
    ensures
        r == level_rank(l),
{
    match l {
        Level::Error => 1,
        Level::Warn => 2,
        Level::Info => 3,
        Level::Debug => 4,
        Level::Trace => 5,
    }
}

fn rank_of_filter(f: LevelFilter) -> (r: u8)
    ensures
        r == filter_rank(f),
{
    match f {
        LevelFilter::Off => 0,
        LevelFilter::Error => 1,
        LevelFilter::Warn => 2,
        LevelFilter::Info => 3,
        LevelFilter::Debug => 4,
        LevelFilter::Trace => 5,
    }
}

/// A filter that rejects every record more severe than a level: the
/// counterpart of a lower threshold, so that a stream gets only the records
/// between two levels.
#[derive(Clone, Copy, Debug, PartialEq, Eq, Hash)]
pub struct UpperThresholdFilter {
    level: LevelFilter,
}

impl UpperThresholdFilter {
    /// The level that this filter lets through and below.
    pub closed spec fn spec_level(self) -> LevelFilter {
        self.level
    }

    /// A filter that rejects the records more severe than `level`.
    pub fn new(level: LevelFilter) -> (r: UpperThresholdFilter)
        ensures
            r.spec_level() == level,
    {
        UpperThresholdFilter { level }
    }

    /// Rejects a record more severe than the filter's level, and leaves any
    /// other to the other filters.
    pub fn filter(&self, record_level: Level) -> (r: FilterResponse)
        ensures
            r == if level_rank(record_level) < filter_rank(self.spec_level()) {
                FilterResponse::Reject
            } else {
                FilterResponse::Neutral
            },
    {
        if rank_of_level(record_level) < rank_of_filter(self.level) {
            FilterResponse::Reject
        } else {
            FilterResponse::Neutral
        }
    }
}

/// Rolls a log file over once it has grown past a size limit, or once at
/// startup when the file was already there.
#[derive(Clone, Copy, Debug, PartialEq, Eq, Hash, Default)]
pub struct CustomTrigger {
    limit: u64,
}

impl CustomTrigger {
    /// The size limit, in bytes.
    pub closed spec fn spec_limit(self) -> u64 {
        self.limit
    }

    /// A trigger that rolls the file once its size passes `limit` bytes.
    pub fn new(limit: u64) -> (r: CustomTrigger)
        ensures
            r.spec_limit() == limit,
    {
        CustomTrigger { limit }
    }

    /// Whether the file should be rolled over: it has passed the limit, or it
    /// was there when the program started and has not been rolled since.
    pub fn trigger(&self, len_estimate: u64, existed_at_startup: bool) -> (roll: bool)
        ensures
            roll == (len_estimate > self.spec_limit() || existed_at_startup),
    {
        len_estimate > self.limit || existed_at_startup
    }
}

/// The lowest level that standard output shows when `name` is asked for:
/// `trace`, `debug`, `info`, `warn` or `error` in any case, and `Info` for
/// anything else.
pub open spec fn threshold_of(name: Seq<char>) -> LevelFilter {
    if same_ignoring_ascii_case(name, "trace"@) {
        LevelFilter::Trace
    } else if same_ignoring_ascii_case(name, "debug"@) {
        LevelFilter::Debug
    } else if same_ignoring_ascii_case(name, "info"@) {
        LevelFilter::Info
    } else if same_ignoring_ascii_case(name, "warn"@) {
        LevelFilter::Warn
    } else if same_ignoring_ascii_case(name, "error"@) {
        LevelFilter::Error
    } else {
        LevelFilter::Info
    }
}

/// The level that the name `name` asks for (see [`threshold_of`]), and
/// `Info` when no name is given.
pub fn threshold_from_name(name: Option<&str>) -> (r: LevelFilter)
    ensures
        r == match name {
            Some(n) => threshold_of(n@),
            None => LevelFilter::Info,
        },
{
    match name {
        None => LevelFilter::Info,
        Some(name) => if eq_ignore_ascii_case(name, "trace") {
            LevelFilter::Trace
        } else if eq_ignore_ascii_case(name, "debug") {
            LevelFilter::Debug
        } else if eq_ignore_ascii_case(name, "info") {
            LevelFilter::Info
        } else if eq_ignore_ascii_case(name, "warn") {
            LevelFilter::Warn
        } else if eq_ignore_ascii_case(name, "error") {
            LevelFilter::Error
        } else {
            LevelFilter::Info
        },
    }
}

} // verus!
