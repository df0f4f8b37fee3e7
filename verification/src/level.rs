//! Severity levels: their order, integer encoding, names and display tags.

use crate::text::{lower_text, reads_as};
use vstd::prelude::*;
use vstd::string::*;

verus! {

/// Log severity, listed from the most severe to the least.
#[derive(Debug, Clone, Copy, PartialEq, Eq, PartialOrd, Ord, Hash, Structural)]
pub enum LogLevel {
    Error,
    Warn,
    Info,
    Debug,
    Trace,
}

/// The level that a small integer stands for, if any.
pub open spec fn level_of_rank(val: u8) -> Option<LogLevel> {
    if val == 0 {
        Some(LogLevel::Error)
    } else if val == 1 {
        Some(LogLevel::Warn)
    } else if val == 2 {
        Some(LogLevel::Info)
    } else if val == 3 {
        Some(LogLevel::Debug)
    } else if val == 4 {
        Some(LogLevel::Trace)
    } else {
        None
    }
}

/// The level that a name stands for, letter case aside.
pub open spec fn level_of_name(s: Seq<char>) -> Option<LogLevel> {
    let lower = lower_text(s);
    if lower == "error"@ {
        Some(LogLevel::Error)
    } else if lower == "warn"@ {
        Some(LogLevel::Warn)
    } else if lower == "info"@ {
        Some(LogLevel::Info)
    } else if lower == "debug"@ {
        Some(LogLevel::Debug)
    } else if lower == "trace"@ {
        Some(LogLevel::Trace)
    } else {
        None
    }
}

impl LogLevel {
    /// Position in the severity order: 0 for `Error`, 4 for `Trace`.
    pub open spec fn rank(self) -> u8 {
        match self {
            LogLevel::Error => 0,
            LogLevel::Warn => 1,
            LogLevel::Info => 2,
            LogLevel::Debug => 3,
            LogLevel::Trace => 4,
        }
    }

    /// `self` is at least as severe as `threshold`.
    pub open spec fn at_least(self, threshold: LogLevel) -> bool {
        self.rank() <= threshold.rank()
    }

    /// The lowercase name of the level.
    pub open spec fn name_text(self) -> Seq<char> {
        match self {
            LogLevel::Error => "error"@,
            LogLevel::Warn => "warn"@,
            LogLevel::Info => "info"@,
            LogLevel::Debug => "debug"@,
            LogLevel::Trace => "trace"@,
        }
    }

    /// The bracketed uppercase tag, padded with a space to seven characters.
    pub open spec fn tag_text(self) -> Seq<char> {
        match self {
            LogLevel::Error => "[ERROR]"@,
            LogLevel::Warn => "[WARN] "@,
            LogLevel::Info => "[INFO] "@,
            LogLevel::Debug => "[DEBUG]"@,
            LogLevel::Trace => "[TRACE]"@,
        }
    }

    /// The integer encoding of the level.
    pub fn as_u8(self) -> (r: u8)
        ensures
            r == self.rank(),
            r <= 4,
    {
        match self {
            LogLevel::Error => 0,
            LogLevel::Warn => 1,
            LogLevel::Info => 2,
            LogLevel::Debug => 3,
            LogLevel::Trace => 4,
        }
    }

    /// The level encoded by `val`; `None` for values above 4.
    pub fn from_u8(val: u8) -> (r: Option<LogLevel>)
        ensures
            r == level_of_rank(val),
            r is Some <==> val <= 4,
            r is Some ==> r->Some_0.rank() == val,
    {
        if val == 0 {
            Some(LogLevel::Error)
        } else if val == 1 {
            Some(LogLevel::Warn)
        } else if val == 2 {
            Some(LogLevel::Info)
        } else if val == 3 {
            Some(LogLevel::Debug)
        } else if val == 4 {
            Some(LogLevel::Trace)
        } else {
            None
        }
    }

    /// Whether an event of this level passes a gate set at `threshold`.
    pub fn is_at_least(self, threshold: LogLevel) -> (r: bool)
        ensures
            r == self.at_least(threshold),
    {
        self.as_u8() <= threshold.as_u8()
    }

    /// The display tag, e.g. `[ERROR]` or `[WARN] `.
    pub fn tag(&self) -> (r: String)
        ensures
            r@ == self.tag_text(),
    {
        match self {
            LogLevel::Error => "[ERROR]".to_owned(),
            LogLevel::Warn => "[WARN] ".to_owned(),
            LogLevel::Info => "[INFO] ".to_owned(),
            LogLevel::Debug => "[DEBUG]".to_owned(),
            LogLevel::Trace => "[TRACE]".to_owned(),
        }
    }

    /// The lowercase name, e.g. `error`.
    pub fn to_string(&self) -> (r: String)
        ensures
            r@ == self.name_text(),
    {
        match self {
            LogLevel::Error => "error".to_owned(),
            LogLevel::Warn => "warn".to_owned(),
            LogLevel::Info => "info".to_owned(),
            LogLevel::Debug => "debug".to_owned(),
            LogLevel::Trace => "trace".to_owned(),
        }
    }

    /// Reads a level name without regard to letter case. Any other text is
    /// rejected, and the error carries that text.
    pub fn from_str(s: &str) -> (r: Result<LogLevel, ParseLevelError>)
        ensures
            match level_of_name(s@) {
                Some(level) => r is Ok && r->Ok_0 == level,
                None => r is Err && r->Err_0@ == s@,
            },
    {
        if reads_as(s, "error") {
            Ok(LogLevel::Error)
        } else if reads_as(s, "warn") {
            Ok(LogLevel::Warn)
        } else if reads_as(s, "info") {
            Ok(LogLevel::Info)
        } else if reads_as(s, "debug") {
            Ok(LogLevel::Debug)
        } else if reads_as(s, "trace") {
            Ok(LogLevel::Trace)
        } else {
            Err(ParseLevelError::new(s))
        }
    }
}

impl std::str::FromStr for LogLevel {
    type Err = ParseLevelError;

    fn from_str(s: &str) -> (r: Result<LogLevel, ParseLevelError>)
        ensures
            match level_of_name(s@) {
                Some(level) => r is Ok && r->Ok_0 == level,
                None => r is Err && r->Err_0@ == s@,
            },
    {
        LogLevel::from_str(s)
    }
}

/// The error for a text that names no level.
#[derive(Debug, Clone)]
pub struct ParseLevelError(String);

impl View for ParseLevelError {
    type V = Seq<char>;

    /// The rejected text.
    closed spec fn view(&self) -> Seq<char> {
        self.0@
    }
}

impl ParseLevelError {
    /// The error for the given rejected text.
    pub fn new(input: &str) -> (r: Self)
        ensures
            r@ == input@,
    {
        ParseLevelError(input.to_owned())
    }

    /// The rejected text.
    pub fn input(&self) -> (r: &str)
        ensures
            r@ == self@,
    {
        self.0.as_str()
    }

    /// The diagnostic message, which quotes the rejected text.
    pub fn to_string(&self) -> (r: String)
        ensures
            r@ == "invalid log level: '"@ + self@ + "'"@,
    {
        let mut out = "invalid log level: '".to_owned();
        out.append(self.0.as_str());
        out.append("'");
        out
    }
}

/// Decoding the integer of a level gives that level back.
pub proof fn lemma_rank_round_trip(level: LogLevel)
    ensures
        level_of_rank(level.rank()) == Some(level),
{
}

/// No integer above 4 encodes a level.
pub proof fn lemma_rank_out_of_range(val: u8)
    requires
        val > 4,
    ensures
        level_of_rank(val) is None,
{
}

/// The severity order is total: of two levels one is at least as severe as
/// the other, and two levels each at least as severe as the other are equal.
pub proof fn lemma_order_total(a: LogLevel, b: LogLevel)
    ensures
        a.at_least(b) || b.at_least(a),
        a.at_least(b) && b.at_least(a) ==> a == b,
        a.at_least(a),
{
}

/// The severity order is transitive.
pub proof fn lemma_order_transitive(a: LogLevel, b: LogLevel, c: LogLevel)
    requires
        a.at_least(b),
        b.at_least(c),
    ensures
        a.at_least(c),
{
}

/// Reading the name of a level gives that level back.
pub proof fn lemma_name_round_trip(level: LogLevel)
    ensures
        level_of_name(level.name_text()) == Some(level),
{
    reveal_strlit("error");
    reveal_strlit("warn");
    reveal_strlit("info");
    reveal_strlit("debug");
    reveal_strlit("trace");
    let name = level.name_text();
    assert(lower_text(name) =~= name);
    assert("warn"@[0] == 'w');
    assert("info"@[0] == 'i');
    assert("debug"@[0] == 'd');
    assert("trace"@[0] == 't');
    assert("error"@[0] == 'e');
}

/// Reading a name does not depend on letter case: two texts with the same
/// lowercase form are read alike, so any spelling of a level's name whose
/// lowercase form is that name reads as the level.
pub proof fn lemma_name_ignores_case(a: Seq<char>, b: Seq<char>)
    requires
        lower_text(a) == lower_text(b),
    ensures
        level_of_name(a) == level_of_name(b),
{
}

} // verus!
