use vstd::prelude::*;

verus! {

/// Log severity, from a kernel panic (most severe, 0) down to tracing (7).
#[derive(PartialEq, Eq, Structural, Copy, Clone, Debug)]
pub enum Level {
    /// Everything broke
    LevelPanic,
    /// Something broke
    LevelError,
    /// Recoverable
    LevelWarning,
    /// Odd
    LevelNotice,
    /// Interesting (least important for the user)
    LevelInfo,
    /// General (highest developer-only level)
    LevelLog,
    /// What
    LevelDebug,
    /// Where
    LevelTrace,
}

/// Display colour selected for a record's header.
#[derive(PartialEq, Eq, Structural, Copy, Clone, Debug)]
pub enum Colour {
    Default,
    Red,
    Yellow,
    Green,
    Blue,
    Purple,
    Grey,
}

impl Level {
    /// Numeric severity: 0 is the most severe, 7 the finest trace.
    pub open spec fn spec_value(self) -> nat {
        match self {
            Level::LevelPanic => 0,
            Level::LevelError => 1,
            Level::LevelWarning => 2,
            Level::LevelNotice => 3,
            Level::LevelInfo => 4,
            Level::LevelLog => 5,
            Level::LevelDebug => 6,
            Level::LevelTrace => 7,
        }
    }

    /// One-letter marker printed in record headers.
    pub open spec fn spec_flag(self) -> char {
        match self {
            Level::LevelPanic => 'k',
            Level::LevelError => 'e',
            Level::LevelWarning => 'w',
            Level::LevelNotice => 'n',
            Level::LevelInfo => 'i',
            Level::LevelLog => 'l',
            Level::LevelDebug => 'd',
            Level::LevelTrace => 't',
        }
    }

    pub open spec fn spec_colour(self) -> Colour {
        match self {
            Level::LevelPanic => Colour::Purple,
            Level::LevelError => Colour::Red,
            Level::LevelWarning => Colour::Yellow,
            Level::LevelNotice => Colour::Green,
            Level::LevelLog => Colour::Blue,
            Level::LevelTrace => Colour::Grey,
            _ => Colour::Default,
        }
    }

    pub fn value(&self) -> (r: u16)
        ensures
            r as nat == self.spec_value(),
            r < 8,
    {
        match *self {
            Level::LevelPanic => 0,
            Level::LevelError => 1,
            Level::LevelWarning => 2,
            Level::LevelNotice => 3,
            Level::LevelInfo => 4,
            Level::LevelLog => 5,
            Level::LevelDebug => 6,
            Level::LevelTrace => 7,
        }
    }

    pub fn to_flag(&self) -> (r: char)
        ensures
            r == self.spec_flag(),
    {
        match *self {
            Level::LevelPanic => 'k',
            Level::LevelError => 'e',
            Level::LevelWarning => 'w',
            Level::LevelNotice => 'n',
            Level::LevelInfo => 'i',
            Level::LevelLog => 'l',
            Level::LevelDebug => 'd',
            Level::LevelTrace => 't',
        }
    }

    pub fn to_colour(&self) -> (r: Colour)
        ensures
            r == self.spec_colour(),
    {
        match *self {
            Level::LevelPanic => Colour::Purple,
            Level::LevelError => Colour::Red,
            Level::LevelWarning => Colour::Yellow,
            Level::LevelNotice => Colour::Green,
            Level::LevelLog => Colour::Blue,
            Level::LevelTrace => Colour::Grey,
            _ => Colour::Default,
        }
    }
}

} // verus!
