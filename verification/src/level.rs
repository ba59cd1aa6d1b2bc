//! Record severities and per-path level thresholds.

use vstd::prelude::*;

use crate::text::ci_eq;
use crate::text::ci_eq_spec;

verus! {

/// Severity of a single log record, from most verbose to most severe.
#[derive(Clone, Copy, Debug, PartialEq, Eq, Structural)]
pub enum Level {
    Trace,
    Debug,
    Info,
    Warn,
    Error,
}

/// A level threshold configured for a module path, or as the global minimum.
/// `Off` disables every severity.
#[derive(Clone, Copy, Debug, PartialEq, Eq, Structural)]
pub enum LevelFilter {
    Off,
    Error,
    Warn,
    Info,
    Debug,
    Trace,
}

/// Numeric rank of a record severity: more verbose levels rank higher.
pub open spec fn level_rank_spec(l: Level) -> int {
    match l {
        Level::Error => 1,
        Level::Warn => 2,
        Level::Info => 3,
        Level::Debug => 4,
        Level::Trace => 5,
    }
}

/// Numeric rank of a threshold; a record passes a threshold iff its
/// severity rank is at most the threshold's rank.
pub open spec fn filter_rank_spec(f: LevelFilter) -> int {
    match f {
        LevelFilter::Off => 0,
        LevelFilter::Error => 1,
        LevelFilter::Warn => 2,
        LevelFilter::Info => 3,
        LevelFilter::Debug => 4,
        LevelFilter::Trace => 5,
    }
}

/// Whether a record of severity `l` is enabled under threshold `f`.
pub open spec fn level_passes_spec(l: Level, f: LevelFilter) -> bool {
    level_rank_spec(l) <= filter_rank_spec(f)
}

impl Level {
    /// Rank of this severity as an integer.
    pub fn rank(self) -> (r: u8)
        ensures
            r as int == level_rank_spec(self),
    {
        match self {
            Level::Error => 1,
            Level::Warn => 2,
            Level::Info => 3,
            Level::Debug => 4,
            Level::Trace => 5,
        }
    }

    /// Whether a record of this severity passes threshold `f`.
    pub fn passes(self, f: LevelFilter) -> (r: bool)
        ensures
            r == level_passes_spec(self, f),
    {
        self.rank() <= f.rank()
    }
}

impl LevelFilter {
    /// Rank of this threshold as an integer.
    pub fn rank(self) -> (r: u8)
        ensures
            r as int == filter_rank_spec(self),
    {
        match self {
            LevelFilter::Off => 0,
            LevelFilter::Error => 1,
            LevelFilter::Warn => 2,
            LevelFilter::Info => 3,
            LevelFilter::Debug => 4,
            LevelFilter::Trace => 5,
        }
    }

    /// The larger (more verbose) of two thresholds.
    pub fn max(self, other: LevelFilter) -> (r: LevelFilter)
        ensures
            r == max_filter_spec(self, other),
    {
        if self.rank() >= other.rank() {
            self
        } else {
            other
        }
    }
}

/// The threshold named by `s`, matched case-insensitively against the six
/// level names, or `None` when `s` names no threshold.
pub open spec fn parse_level_spec(s: Seq<char>) -> Option<LevelFilter> {
    if ci_eq_spec(s, "off"@, "OFF"@) {
        Some(LevelFilter::Off)
    } else if ci_eq_spec(s, "error"@, "ERROR"@) {
        Some(LevelFilter::Error)
    } else if ci_eq_spec(s, "warn"@, "WARN"@) {
        Some(LevelFilter::Warn)
    } else if ci_eq_spec(s, "info"@, "INFO"@) {
        Some(LevelFilter::Info)
    } else if ci_eq_spec(s, "debug"@, "DEBUG"@) {
        Some(LevelFilter::Debug)
    } else if ci_eq_spec(s, "trace"@, "TRACE"@) {
        Some(LevelFilter::Trace)
    } else {
        None
    }
}

/// Parses a threshold name, ignoring ASCII case; unknown names give `None`.
pub fn parse_level(s: &str) -> (r: Option<LevelFilter>)
    ensures
        r == parse_level_spec(s@),
{
    proof {
        reveal_strlit("off");
        reveal_strlit("OFF");
        reveal_strlit("error");
        reveal_strlit("ERROR");
        reveal_strlit("warn");
        reveal_strlit("WARN");
        reveal_strlit("info");
        reveal_strlit("INFO");
        reveal_strlit("debug");
        reveal_strlit("DEBUG");
        reveal_strlit("trace");
        reveal_strlit("TRACE");
    }
    if ci_eq(s, "off", "OFF") {
        Some(LevelFilter::Off)
    } else if ci_eq(s, "error", "ERROR") {
        Some(LevelFilter::Error)
    } else if ci_eq(s, "warn", "WARN") {
        Some(LevelFilter::Warn)
    } else if ci_eq(s, "info", "INFO") {
        Some(LevelFilter::Info)
    } else if ci_eq(s, "debug", "DEBUG") {
        Some(LevelFilter::Debug)
    } else if ci_eq(s, "trace", "TRACE") {
        Some(LevelFilter::Trace)
    } else {
        None
    }
}

/// The larger (more verbose) of two thresholds.
pub open spec fn max_filter_spec(a: LevelFilter, b: LevelFilter) -> LevelFilter {
    if filter_rank_spec(a) >= filter_rank_spec(b) {
        a
    } else {
        b
    }
}

} // verus!
