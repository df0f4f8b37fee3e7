//! Output sinks and the fan-out of one event over a list of them.
//!
//! A sink is a destination with a severity threshold of its own. Fanning an
//! event out writes nothing: it yields, for each sink that admits the event,
//! the line to deliver and the place to deliver it to.

use crate::color::colored_tag;
use crate::format::{format_message_full, line_text};
use crate::level::LogLevel;
use vstd::prelude::*;

verus! {

/// A log destination with its own threshold. `W` is the destination that a
/// writer sink owns; this crate stores it and never looks inside.
pub enum LogOutput<W> {
    /// The standard error stream, in color where it is a terminal.
    Term { level: LogLevel },
    /// A destination of the caller's, in plain text.
    Writer { level: LogLevel, writer: W },
    /// The output channel that a test harness captures, in plain text.
    Test { level: LogLevel },
}

/// Where an emitted line is to be delivered.
#[derive(Debug, Clone, Copy, PartialEq, Eq, Structural)]
pub enum Target {
    /// The standard error stream.
    Stderr,
    /// The destination of the writer sink at this position in the logger's
    /// list of sinks.
    Writer(usize),
    /// The captured output channel.
    Captured,
}

/// One line to deliver, with its destination.
#[derive(Debug)]
pub struct Emission {
    pub target: Target,
    pub line: String,
}

impl View for Emission {
    type V = (Target, Seq<char>);

    open spec fn view(&self) -> (Target, Seq<char>) {
        (self.target, self.line@)
    }
}

/// The views of a list of emissions, in order.
pub open spec fn emitted(list: Seq<Emission>) -> Seq<(Target, Seq<char>)> {
    Seq::new(list.len(), |i: int| list[i]@)
}

/// One log event with the context captured for it; an absent context value
/// is a segment left out of the line.
pub struct Event {
    pub level: LogLevel,
    pub message: Seq<char>,
    pub timestamp: Option<Seq<char>>,
    pub place: Option<(Seq<char>, nat)>,
    pub thread: Option<Seq<char>>,
}

impl Event {
    /// The event's line with the plain tag.
    pub open spec fn plain_line(self) -> Seq<char> {
        line_text(self.level.tag_text(), self.message, self.timestamp, self.place, self.thread)
    }

    /// The event's line with the tag in bold and in the level's color.
    pub open spec fn colored_line(self) -> Seq<char> {
        line_text(colored_tag(self.level), self.message, self.timestamp, self.place, self.thread)
    }
}

impl<W> LogOutput<W> {
    /// The sink's own threshold.
    pub open spec fn threshold(self) -> LogLevel {
        match self {
            LogOutput::Term { level } => level,
            LogOutput::Writer { level, .. } => level,
            LogOutput::Test { level } => level,
        }
    }

    /// The sink takes events of this level: those at least as severe as its
    /// threshold, and no others.
    pub open spec fn admits(self, level: LogLevel) -> bool {
        level.at_least(self.threshold())
    }

    /// The destination of the sink that stands at `index`.
    pub open spec fn target_at(self, index: int) -> Target {
        match self {
            LogOutput::Term { .. } => Target::Stderr,
            LogOutput::Writer { .. } => Target::Writer(index as usize),
            LogOutput::Test { .. } => Target::Captured,
        }
    }

    /// A line that this sink may emit for the event: the plain line, or, for
    /// the terminal sink while standard error is a terminal, the colored
    /// line. The color engine decides between the two for a terminal.
    pub open spec fn may_emit(self, event: Event, stderr_is_terminal: bool, line: Seq<char>) -> bool {
        line == event.plain_line() || (self is Term && stderr_is_terminal && line
            == event.colored_line())
    }

    /// A sink for standard error.
    pub fn term(level: LogLevel) -> (r: Self)
        ensures
            r == (LogOutput::<W>::Term { level }),
    {
        LogOutput::Term { level }
    }

    /// A sink for a destination of the caller's.
    pub fn writer(level: LogLevel, w: W) -> (r: Self)
        ensures
            r == (LogOutput::Writer { level, writer: w }),
    {
        LogOutput::Writer { level, writer: w }
    }

    /// A sink for the captured output channel.
    pub fn test(level: LogLevel) -> (r: Self)
        ensures
            r == (LogOutput::<W>::Test { level }),
    {
        LogOutput::Test { level }
    }

    /// The sink's own threshold.
    pub fn level(&self) -> (r: LogLevel)
        ensures
            r == self.threshold(),
    {
        match self {
            LogOutput::Term { level } => *level,
            LogOutput::Writer { level, .. } => *level,
            LogOutput::Test { level } => *level,
        }
    }

    /// Whether the sink takes events of this level.
    pub fn accepts(&self, level: LogLevel) -> (r: bool)
        ensures
            r == self.admits(level),
    {
        level.is_at_least(self.level())
    }
}

/// The positions of the sinks that admit the level, in growing order.
pub open spec fn admitting<W>(outputs: Seq<LogOutput<W>>, level: LogLevel) -> Seq<int>
    decreases outputs.len(),
{
    if outputs.len() == 0 {
        Seq::empty()
    } else if outputs.last().admits(level) {
        admitting(outputs.drop_last(), level).push(outputs.len() - 1)
    } else {
        admitting(outputs.drop_last(), level)
    }
}

/// `got` is a fan-out of the event over the sinks: one emission for each sink
/// that admits the event's level, in the order of the sinks, each bound for
/// its sink's destination and holding a line that the sink may emit.
pub open spec fn is_fan_out<W>(
    outputs: Seq<LogOutput<W>>,
    event: Event,
    stderr_is_terminal: bool,
    got: Seq<(Target, Seq<char>)>,
) -> bool {
    let picked = admitting(outputs, event.level);
    &&& got.len() == picked.len()
    &&& forall|k: int|
        #![trigger got[k]]
        0 <= k < got.len() ==> {
            &&& 0 <= picked[k] < outputs.len()
            &&& got[k].0 == outputs[picked[k]].target_at(picked[k])
            &&& outputs[picked[k]].may_emit(event, stderr_is_terminal, got[k].1)
        }
}

/// A position is among the admitting ones exactly if it is a position of the
/// list and the sink there admits the level; the positions grow strictly.
pub proof fn lemma_admitting<W>(outputs: Seq<LogOutput<W>>, level: LogLevel)
    ensures
        forall|i: int|
            admitting(outputs, level).contains(i) <==> 0 <= i < outputs.len()
                && (#[trigger] outputs[i]).admits(level),
        forall|k: int|
            0 <= k < admitting(outputs, level).len() ==> 0 <= #[trigger] admitting(
                outputs,
                level,
            )[k] < outputs.len(),
        forall|j: int, k: int|
            0 <= j < k < admitting(outputs, level).len() ==> admitting(outputs, level)[j]
                < admitting(outputs, level)[k],
    decreases outputs.len(),
{
    if outputs.len() > 0 {
        let head = outputs.drop_last();
        lemma_admitting(head, level);
        let picked = admitting(outputs, level);
        let before = admitting(head, level);
        let last = outputs.len() - 1;
        assert forall|i: int|
            picked.contains(i) <==> 0 <= i < outputs.len() && (#[trigger] outputs[i]).admits(
                level,
            ) by {
            if picked.contains(i) {
                let k = choose|k: int| 0 <= k < picked.len() && picked[k] == i;
                if k < before.len() {
                    assert(before[k] == i);
                    assert(before.contains(i));
                    assert(head[i] == outputs[i]);
                }
            }
            if 0 <= i < outputs.len() && outputs[i].admits(level) {
                if i < last {
                    assert(head[i] == outputs[i]);
                    assert(before.contains(i));
                    let k = choose|k: int| 0 <= k < before.len() && before[k] == i;
                    assert(picked[k] == i);
                } else {
                    assert(picked[picked.len() - 1] == i);
                }
            }
        }
    }
}

/// A sink at the edge of its threshold: it takes an event at the threshold
/// itself, and refuses an event one step less severe.
pub proof fn lemma_gate_boundary<W>(sink: LogOutput<W>, level: LogLevel)
    ensures
        sink.admits(level) <==> level.rank() <= sink.threshold().rank(),
        level == sink.threshold() ==> sink.admits(level),
        level.rank() == sink.threshold().rank() + 1 ==> !sink.admits(level),
{
}

/// In a fan-out a sink is emitted to exactly if the event is at least as
/// severe as the sink's threshold: the sink at position `i` is the sink of
/// one of the emissions if it admits the event's level, and of none if not.
pub proof fn lemma_fan_out_reaches<W>(
    outputs: Seq<LogOutput<W>>,
    event: Event,
    stderr_is_terminal: bool,
    got: Seq<(Target, Seq<char>)>,
    i: int,
)
    requires
        is_fan_out(outputs, event, stderr_is_terminal, got),
        0 <= i < outputs.len(),
    ensures
        event.level.at_least(outputs[i].threshold()) <==> exists|k: int|
            0 <= k < got.len() && #[trigger] admitting(outputs, event.level)[k] == i,
{
    lemma_admitting(outputs, event.level);
    let picked = admitting(outputs, event.level);
    if outputs[i].admits(event.level) {
        assert(picked.contains(i));
        let k = choose|k: int| 0 <= k < picked.len() && picked[k] == i;
        assert(0 <= k < got.len() && picked[k] == i);
    }
    if exists|k: int| 0 <= k < got.len() && #[trigger] picked[k] == i {
        let k = choose|k: int| 0 <= k < got.len() && #[trigger] picked[k] == i;
        assert(picked.contains(i));
    }
}

/// While standard error is no terminal the fan-out of an event is fixed: any
/// two fan-outs of the same event over the same sinks are equal, and every
/// line in them is the event's plain line.
pub proof fn lemma_fan_out_fixed_off_terminal<W>(
    outputs: Seq<LogOutput<W>>,
    event: Event,
    one: Seq<(Target, Seq<char>)>,
    other: Seq<(Target, Seq<char>)>,
)
    requires
        is_fan_out(outputs, event, false, one),
        is_fan_out(outputs, event, false, other),
    ensures
        one == other,
        forall|k: int| 0 <= k < one.len() ==> (#[trigger] one[k]).1 == event.plain_line(),
{
    assert forall|k: int| 0 <= k < one.len() implies one[k] == other[k] by {
        assert(one[k].0 == other[k].0);
        assert(one[k].1 == other[k].1);
    }
    assert(one =~= other);
}

/// Fans one event out over the sinks. Each sink is gated by its own
/// threshold; the line for a terminal sink is formatted with color exactly
/// if `stderr_is_terminal`, every other line without.
pub fn fan_out<W>(
    outputs: &Vec<LogOutput<W>>,
    level: LogLevel,
    message: &str,
    timestamp: Option<&str>,
    source_loc: Option<(&str, u32)>,
    thread_info: Option<&str>,
    stderr_is_terminal: bool,
) -> (r: Vec<Emission>)
    ensures
        is_fan_out(
            outputs@,
            (Event {
                level,
                message: message@,
                timestamp: crate::format::text_of(timestamp),
                place: crate::format::place_of(source_loc),
                thread: crate::format::text_of(thread_info),
            }),
            stderr_is_terminal,
            emitted(r@),
        ),
{
    let ghost event = Event {
        level,
        message: message@,
        timestamp: crate::format::text_of(timestamp),
        place: crate::format::place_of(source_loc),
        thread: crate::format::text_of(thread_info),
    };
    let mut out: Vec<Emission> = Vec::new();
    let mut i: usize = 0;
    while i < outputs.len()
        invariant
            i <= outputs.len(),
            event == (Event {
                level,
                message: message@,
                timestamp: crate::format::text_of(timestamp),
                place: crate::format::place_of(source_loc),
                thread: crate::format::text_of(thread_info),
            }),
            is_fan_out(outputs@.take(i as int), event, stderr_is_terminal, emitted(out@)),
        decreases outputs.len() - i,
    {
        let ghost seen = outputs@.take(i as int);
        let ghost next = outputs@.take(i + 1);
        let ghost before = emitted(out@);
        proof {
            assert(next.drop_last() =~= seen);
            assert(next.last() == outputs@[i as int]);
            lemma_admitting(seen, level);
        }
        let sink = &outputs[i];
        if sink.accepts(level) {
            let use_color = match sink {
                LogOutput::Term { .. } => stderr_is_terminal,
                _ => false,
            };
            let line = format_message_full(
                level,
                message,
                use_color,
                timestamp,
                source_loc,
                thread_info,
            );
            let target = match sink {
                LogOutput::Term { .. } => Target::Stderr,
                LogOutput::Writer { .. } => Target::Writer(i),
                LogOutput::Test { .. } => Target::Captured,
            };
            out.push(Emission { target, line });
            proof {
                let after = emitted(out@);
                let picked = admitting(next, level);
                assert(picked == admitting(seen, level).push(i as int));
                assert forall|k: int| 0 <= k < after.len() implies {
                    &&& 0 <= picked[k] < next.len()
                    &&& (#[trigger] after[k]).0 == next[picked[k]].target_at(picked[k])
                    &&& next[picked[k]].may_emit(event, stderr_is_terminal, after[k].1)
                } by {
                    if k < before.len() {
                        assert(after[k] == before[k]);
                        assert(next[picked[k]] == seen[picked[k]]);
                    }
                }
            }
        } else {
            proof {
                let picked = admitting(next, level);
                assert(picked == admitting(seen, level));
                assert forall|k: int| 0 <= k < before.len() implies {
                    &&& 0 <= picked[k] < next.len()
                    &&& (#[trigger] before[k]).0 == next[picked[k]].target_at(picked[k])
                    &&& next[picked[k]].may_emit(event, stderr_is_terminal, before[k].1)
                } by {
                    assert(next[picked[k]] == seen[picked[k]]);
                }
            }
        }
        i += 1;
    }
    proof {
        assert(outputs@.take(i as int) =~= outputs@);
    }
    out
}

} // verus!
