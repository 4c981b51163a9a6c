//! A severity-filtered log layer's decision core: the severity scale and
//! the filter that admits an event.

use vstd::prelude::*;

verus! {

/// The severity of a log event, least severe first.
#[derive(Clone, Copy, Debug, PartialEq, Eq, Structural)]
pub enum Level {
    Trace,
    Debug,
    Info,
    Warn,
    Error,
}

impl Level {
    /// The severity's rank on the scale.
    pub open spec fn spec_rank(self) -> int {
        match self {
            Level::Trace => 0,
            Level::Debug => 1,
            Level::Info => 2,
            Level::Warn => 3,
            Level::Error => 4,
        }
    }

    /// The severity's rank, executable.
    pub fn rank(&self) -> (r: u8)
        ensures
            r as int == self.spec_rank(),
    {
        match self {
            Level::Trace => 0,
            Level::Debug => 1,
            Level::Info => 2,
            Level::Warn => 3,
            Level::Error => 4,
        }
    }
}

/// The log layer's core: it keeps every event at least as severe as the
/// configured floor.
#[derive(Clone, Copy, Debug)]
pub struct Logger {
    max_level: Level,
}

impl Logger {
    /// The configured floor: the least severe level still admitted.
    pub closed spec fn spec_max_level(self) -> Level {
        self.max_level
    }

    /// A logger that admits everything at least as severe as the given
    /// floor.
    pub fn new(max_level: Level) -> (r: Logger)
        ensures
            r.spec_max_level() == max_level,
    {
        Logger { max_level }
    }

    /// Whether an event of the given severity is admitted.
    pub fn enabled(&self, level: Level) -> (r: bool)
        ensures
            r == (level.spec_rank() >= self.spec_max_level().spec_rank()),
    {
        level.rank() >= self.max_level.rank()
    }
}

} // verus!
