//! Severities of records and thresholds of filters.
use vstd::prelude::*;

verus! {

/// The severity of a record, from the most severe to the most verbose.
#[derive(Clone, Copy, Debug, PartialEq, Eq, Structural)]
pub enum Level {
    Error,
    Warn,
    Info,
    Debug,
    Trace,
}

/// A filter threshold: `Off` admits nothing, `Trace` admits everything.
#[derive(Clone, Copy, Debug, PartialEq, Eq, Structural)]
pub enum LevelFilter {
    Off,
    Error,
    Warn,
    Info,
    Debug,
    Trace,
}

impl Level {
    /// Verbosity rank: `Error` is 1, `Trace` is 5.
    pub open spec fn rank(self) -> nat {
        match self {
            Level::Error => 1,
            Level::Warn => 2,
            Level::Info => 3,
            Level::Debug => 4,
            Level::Trace => 5,
        }
    }

    /// The five-character, space-padded name used in the text layout.
    pub open spec fn padded_name(self) -> Seq<char> {
        match self {
            Level::Error => seq!['E', 'R', 'R', 'O', 'R'],
            Level::Warn => seq!['W', 'A', 'R', 'N', ' '],
            Level::Info => seq!['I', 'N', 'F', 'O', ' '],
            Level::Debug => seq!['D', 'E', 'B', 'U', 'G'],
            Level::Trace => seq!['T', 'R', 'A', 'C', 'E'],
        }
    }

    /// The rank as a byte; it is also the severity code of the binary layout.
    pub fn code(&self) -> (r: u8)
        ensures
            r as nat == self.rank(),
    {
        match self {
            Level::Error => 1,
            Level::Warn => 2,
            Level::Info => 3,
            Level::Debug => 4,
            Level::Trace => 5,
        }
    }

    /// The filter whose threshold is this level.
    pub fn to_level_filter(&self) -> (r: LevelFilter)
        ensures
            r.rank() == self.rank(),
    {
        match self {
            Level::Error => LevelFilter::Error,
            Level::Warn => LevelFilter::Warn,
            Level::Info => LevelFilter::Info,
            Level::Debug => LevelFilter::Debug,
            Level::Trace => LevelFilter::Trace,
        }
    }

    /// The level's name, padded with trailing spaces to five characters.
    pub fn padded_str(&self) -> (r: &'static str)
        ensures
            r@ == self.padded_name(),
    {
        match self {
            Level::Error => {
                proof {
                    reveal_strlit("ERROR");
                }
                "ERROR"
            },
            Level::Warn => {
                proof {
                    reveal_strlit("WARN ");
                }
                "WARN "
            },
            Level::Info => {
                proof {
                    reveal_strlit("INFO ");
                }
                "INFO "
            },
            Level::Debug => {
                proof {
                    reveal_strlit("DEBUG");
                }
                "DEBUG"
            },
            Level::Trace => {
                proof {
                    reveal_strlit("TRACE");
                }
                "TRACE"
            },
        }
    }
}

impl LevelFilter {
    /// Verbosity rank: `Off` is 0, `Trace` is 5.
    pub open spec fn rank(self) -> nat {
        match self {
            LevelFilter::Off => 0,
            LevelFilter::Error => 1,
            LevelFilter::Warn => 2,
            LevelFilter::Info => 3,
            LevelFilter::Debug => 4,
            LevelFilter::Trace => 5,
        }
    }

    /// The verbosity rank of this threshold.
    pub fn rank_of(&self) -> (r: u8)
        ensures
            r as nat == self.rank(),
    {
        match self {
            LevelFilter::Off => 0,
            LevelFilter::Error => 1,
            LevelFilter::Warn => 2,
            LevelFilter::Info => 3,
            LevelFilter::Debug => 4,
            LevelFilter::Trace => 5,
        }
    }

    /// Whether a record of `level` passes this threshold.
    pub fn admits(&self, level: Level) -> (r: bool)
        ensures
            r == (level.rank() <= self.rank()),
    {
        level.code() <= self.rank_of()
    }

    /// The more verbose of two thresholds.
    pub fn more_verbose(self, other: LevelFilter) -> (r: LevelFilter)
        ensures
            r.rank() == if self.rank() >= other.rank() { self.rank() } else { other.rank() },
            r == self || r == other,
    {
        if self.rank_of() >= other.rank_of() {
            self
        } else {
            other
        }
    }
}

} // verus!
