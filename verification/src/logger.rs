//! The logger, its builder and the registry that holds the one logger of a
//! process.

use crate::clock::{format_current_timestamp, is_clock_text, lemma_clock_text_without_escape};
use crate::filter::{filter_admits, matches_module_filter, texts};
use crate::format::{has_escape, lemma_plain_line_without_escape, text_of};
use crate::level::{level_of_name, LogLevel};
use crate::output::{
    admitting, emitted, fan_out, is_fan_out, lemma_fan_out_reaches, Emission, Event, LogOutput,
    Target,
};
use vstd::prelude::*;
use vstd::string::*;

verus! {

/// What a logger is configured with.
pub struct Config<W> {
    /// The global level: events less severe than it reach no sink.
    pub level: LogLevel,
    /// Lines begin with a timestamp.
    pub timestamps: bool,
    /// Lines show the source location after the tag.
    pub source_location: bool,
    /// Lines show the thread before the tag.
    pub thread_info: bool,
    /// The module allow list.
    pub allow: Seq<Seq<char>>,
    /// The module deny list.
    pub deny: Seq<Seq<char>>,
    /// The sinks, in fan-out order.
    pub outputs: Seq<LogOutput<W>>,
}

impl<W> Config<W> {
    /// An event of this level from this module path passes the global gate
    /// and the module filter.
    pub open spec fn admits(self, level: LogLevel, path: Seq<char>) -> bool {
        level.at_least(self.level) && filter_admits(path, self.allow, self.deny)
    }

    /// The event as this configuration shows it: each context value is kept
    /// where its option is switched on and dropped where it is not.
    pub open spec fn event(
        self,
        level: LogLevel,
        message: Seq<char>,
        timestamp: Option<Seq<char>>,
        file: Seq<char>,
        line: nat,
        thread: Seq<char>,
    ) -> Event {
        Event {
            level,
            message,
            timestamp: if self.timestamps {
                timestamp
            } else {
                None
            },
            place: if self.source_location {
                Some((file, line))
            } else {
                None
            },
            thread: if self.thread_info {
                Some(thread)
            } else {
                None
            },
        }
    }

    /// The configuration that initialization installs: this one, with a
    /// single terminal sink at the global level where no sink was added.
    pub open spec fn installed(self) -> Config<W> {
        if self.outputs.len() == 0 {
            Config { outputs: seq![LogOutput::Term { level: self.level }], ..self }
        } else {
            self
        }
    }

    /// `got` is a dispatch of the event under this configuration. An event
    /// that the global gate or the module filter stops yields nothing. Any
    /// other is fanned out over the sinks; with timestamps switched on, the
    /// lines begin with one reading of the clock, the same in all of them.
    pub open spec fn is_dispatch(
        self,
        level: LogLevel,
        message: Seq<char>,
        path: Seq<char>,
        file: Seq<char>,
        line: nat,
        thread: Seq<char>,
        stderr_is_terminal: bool,
        got: Seq<(Target, Seq<char>)>,
    ) -> bool {
        if !self.admits(level, path) {
            got.len() == 0
        } else if !self.timestamps {
            is_fan_out(
                self.outputs,
                self.event(level, message, None, file, line, thread),
                stderr_is_terminal,
                got,
            )
        } else {
            exists|stamp: Seq<char>|
                is_clock_text(stamp) && is_fan_out(
                    self.outputs,
                    #[trigger] self.event(level, message, Some(stamp), file, line, thread),
                    stderr_is_terminal,
                    got,
                )
        }
    }
}

/// What an initialization with `config` makes of a registry in `state`, and
/// whether it succeeds. An empty registry takes the installed form of the
/// configuration; a registry that holds a logger refuses and keeps it.
pub open spec fn init_outcome<W>(state: Option<Config<W>>, config: Config<W>) -> (
    Option<Config<W>>,
    bool,
) {
    match state {
        Some(_) => (state, false),
        None => (Some(config.installed()), true),
    }
}

/// What a change of the global level makes of a registry in `state`: the
/// level of the logger it holds is replaced, and nothing else.
pub open spec fn set_level_outcome<W>(state: Option<Config<W>>, level: LogLevel) -> Option<
    Config<W>,
> {
    match state {
        Some(config) => Some(Config { level, ..config }),
        None => None,
    }
}

/// The level that a builder starts from: the one that the override names,
/// letter case aside, and `Info` where there is no override or it names no
/// level.
pub open spec fn default_level(env_level: Option<Seq<char>>) -> LogLevel {
    match env_level {
        Some(name) => match level_of_name(name) {
            Some(level) => level,
            None => LogLevel::Info,
        },
        None => LogLevel::Info,
    }
}

/// How a thread is shown in a line: by its name, or by the fallback
/// identifier where it has none.
pub fn thread_label(name: Option<&str>, fallback: &str) -> (r: String)
    ensures
        r@ == match name {
            Some(n) => n@,
            None => fallback@,
        },
{
    match name {
        Some(n) => n.to_owned(),
        None => fallback.to_owned(),
    }
}

/// A configured logger. After initialization only its level changes.
pub struct Logger<W> {
    level: LogLevel,
    timestamps: bool,
    source_location: bool,
    thread_info: bool,
    module_allow: Vec<String>,
    module_deny: Vec<String>,
    outputs: Vec<LogOutput<W>>,
}

impl<W> View for Logger<W> {
    type V = Config<W>;

    closed spec fn view(&self) -> Config<W> {
        Config {
            level: self.level,
            timestamps: self.timestamps,
            source_location: self.source_location,
            thread_info: self.thread_info,
            allow: texts(self.module_allow@),
            deny: texts(self.module_deny@),
            outputs: self.outputs@,
        }
    }
}

impl<W> Logger<W> {
    /// The global level.
    pub fn level(&self) -> (r: LogLevel)
        ensures
            r == self@.level,
    {
        self.level
    }

    /// The sinks, in fan-out order.
    pub fn outputs(&self) -> (r: &Vec<LogOutput<W>>)
        ensures
            r@ == self@.outputs,
    {
        &self.outputs
    }

    /// The destination of the writer sink at `index`; `None` where there is
    /// no sink at that position or it is no writer sink.
    pub fn writer(&self, index: usize) -> (r: Option<&W>)
        ensures
            match r {
                Some(w) => index < self@.outputs.len() && self@.outputs[index as int] is Writer
                    && self@.outputs[index as int]->writer == *w,
                None => index >= self@.outputs.len() || !(self@.outputs[index as int] is Writer),
            },
    {
        if index < self.outputs.len() {
            match &self.outputs[index] {
                LogOutput::Writer { writer, .. } => Some(writer),
                _ => None,
            }
        } else {
            None
        }
    }

    /// Whether an event of this level from this module path passes the
    /// global gate and the module filter.
    pub fn enabled(&self, level: LogLevel, path: &str) -> (r: bool)
        ensures
            r == self@.admits(level, path@),
    {
        if !level.is_at_least(self.level) {
            return false;
        }
        matches_module_filter(path, self.module_allow.as_slice(), self.module_deny.as_slice())
    }

    /// Fans out an event that has passed the gates, with the context captured
    /// for it. A context value whose option is switched off is left out.
    pub fn emit(
        &self,
        level: LogLevel,
        message: &str,
        timestamp: Option<&str>,
        file: &str,
        line: u32,
        thread: &str,
        stderr_is_terminal: bool,
    ) -> (r: Vec<Emission>)
        ensures
            is_fan_out(
                self@.outputs,
                self@.event(level, message@, text_of(timestamp), file@, line as nat, thread@),
                stderr_is_terminal,
                emitted(r@),
            ),
    {
        let ts = if self.timestamps {
            timestamp
        } else {
            None
        };
        let source_loc = if self.source_location {
            Some((file, line))
        } else {
            None
        };
        let thread_info = if self.thread_info {
            Some(thread)
        } else {
            None
        };
        fan_out(&self.outputs, level, message, ts, source_loc, thread_info, stderr_is_terminal)
    }

    /// Dispatches one event: global gate, module filter, one reading of the
    /// clock where timestamps are switched on, then the fan-out. The caller
    /// supplies the name of its thread and whether standard error is a
    /// terminal, and delivers the lines that come back.
    pub fn dispatch(
        &self,
        level: LogLevel,
        message: &str,
        path: &str,
        file: &str,
        line: u32,
        thread: &str,
        stderr_is_terminal: bool,
    ) -> (r: Vec<Emission>)
        ensures
            self@.is_dispatch(
                level,
                message@,
                path@,
                file@,
                line as nat,
                thread@,
                stderr_is_terminal,
                emitted(r@),
            ),
    {
        if !self.enabled(level, path) {
            let none: Vec<Emission> = Vec::new();
            return none;
        }
        if self.timestamps {
            let stamp = format_current_timestamp();
            let r = self.emit(
                level,
                message,
                Some(stamp.as_str()),
                file,
                line,
                thread,
                stderr_is_terminal,
            );
            proof {
                assert(is_fan_out(
                    self@.outputs,
                    self@.event(level, message@, Some(stamp@), file@, line as nat, thread@),
                    stderr_is_terminal,
                    emitted(r@),
                ));
            }
            r
        } else {
            self.emit(level, message, None, file, line, thread, stderr_is_terminal)
        }
    }

    /// Dispatches a record of the `log` facade, whose target stands for the
    /// module path. A record without a file is shown with an empty file name,
    /// one without a line with line 0.
    pub fn log(
        &self,
        level: LogLevel,
        message: &str,
        target: &str,
        file: Option<&str>,
        line: Option<u32>,
        thread: &str,
        stderr_is_terminal: bool,
    ) -> (r: Vec<Emission>)
        ensures
            self@.is_dispatch(
                level,
                message@,
                target@,
                match file {
                    Some(f) => f@,
                    None => Seq::empty(),
                },
                match line {
                    Some(n) => n as nat,
                    None => 0,
                },
                thread@,
                stderr_is_terminal,
                emitted(r@),
            ),
    {
        proof {
            reveal_strlit("");
        }
        let shown_file = match file {
            Some(f) => f,
            None => "",
        };
        let shown_line: u32 = match line {
            Some(n) => n,
            None => 0,
        };
        assert(shown_file@ =~= match file {
            Some(f) => f@,
            None => Seq::empty(),
        });
        self.dispatch(level, message, target, shown_file, shown_line, thread, stderr_is_terminal)
    }
}

/// Collects the configuration of a logger.
pub struct LoggerBuilder<W> {
    level: LogLevel,
    timestamps: bool,
    source_location: bool,
    thread_info: bool,
    module_allow: Vec<String>,
    module_deny: Vec<String>,
    outputs: Vec<LogOutput<W>>,
}

impl<W> View for LoggerBuilder<W> {
    type V = Config<W>;

    closed spec fn view(&self) -> Config<W> {
        Config {
            level: self.level,
            timestamps: self.timestamps,
            source_location: self.source_location,
            thread_info: self.thread_info,
            allow: texts(self.module_allow@),
            deny: texts(self.module_deny@),
            outputs: self.outputs@,
        }
    }
}

impl<W> LoggerBuilder<W> {
    /// A builder with every option switched off, no filter and no sink. Its
    /// level is the one that `env_level`, the value of the environment
    /// override, names; `Info` where that is absent or names no level.
    pub fn new(env_level: Option<&str>) -> (r: Self)
        ensures
            r@ == (Config::<W> {
                level: default_level(text_of(env_level)),
                timestamps: false,
                source_location: false,
                thread_info: false,
                allow: Seq::empty(),
                deny: Seq::empty(),
                outputs: Seq::empty(),
            }),
    {
        let level = match env_level {
            Some(name) => match LogLevel::from_str(name) {
                Ok(level) => level,
                Err(_) => LogLevel::Info,
            },
            None => LogLevel::Info,
        };
        let r = LoggerBuilder {
            level,
            timestamps: false,
            source_location: false,
            thread_info: false,
            module_allow: Vec::new(),
            module_deny: Vec::new(),
            outputs: Vec::new(),
        };
        assert(r@.allow =~= Seq::empty());
        assert(r@.deny =~= Seq::empty());
        r
    }

    /// Sets the global level.
    pub fn level(self, level: LogLevel) -> (r: Self)
        ensures
            r@ == (Config { level, ..self@ }),
    {
        let mut b = self;
        b.level = level;
        b
    }

    /// The global level set so far.
    pub fn get_level(&self) -> (r: LogLevel)
        ensures
            r == self@.level,
    {
        self.level
    }

    /// Switches timestamps on or off.
    pub fn timestamps(self, enabled: bool) -> (r: Self)
        ensures
            r@ == (Config { timestamps: enabled, ..self@ }),
    {
        let mut b = self;
        b.timestamps = enabled;
        b
    }

    /// Switches the source location on or off.
    pub fn source_location(self, enabled: bool) -> (r: Self)
        ensures
            r@ == (Config { source_location: enabled, ..self@ }),
    {
        let mut b = self;
        b.source_location = enabled;
        b
    }

    /// Switches the thread segment on or off.
    pub fn thread_info(self, enabled: bool) -> (r: Self)
        ensures
            r@ == (Config { thread_info: enabled, ..self@ }),
    {
        let mut b = self;
        b.thread_info = enabled;
        b
    }

    /// Replaces the module allow list.
    pub fn module_allow(self, modules: Vec<String>) -> (r: Self)
        ensures
            r@ == (Config { allow: texts(modules@), ..self@ }),
    {
        let mut b = self;
        b.module_allow = modules;
        b
    }

    /// Replaces the module deny list.
    pub fn module_deny(self, modules: Vec<String>) -> (r: Self)
        ensures
            r@ == (Config { deny: texts(modules@), ..self@ }),
    {
        let mut b = self;
        b.module_deny = modules;
        b
    }

    /// Adds a sink after those added so far.
    pub fn add_output(self, output: LogOutput<W>) -> (r: Self)
        ensures
            r@ == (Config { outputs: self@.outputs.push(output), ..self@ }),
    {
        let mut b = self;
        b.outputs.push(output);
        b
    }

    /// Installs the logger in the registry. A registry that already holds a
    /// logger refuses and stays exactly as it was.
    pub fn init(self, registry: &mut Registry<W>) -> (r: Result<(), InitError>)
        ensures
            final(registry)@ == init_outcome(old(registry)@, self@).0,
            r is Ok <==> init_outcome(old(registry)@, self@).1,
            old(registry)@ is Some ==> r is Err && *final(registry) == *old(registry),
            old(registry)@ is None ==> r is Ok && final(registry)@ == Some(self@.installed()),
    {
        if registry.slot.is_some() {
            return Err(InitError);
        }
        let mut outputs = self.outputs;
        if outputs.len() == 0 {
            outputs.push(LogOutput::Term { level: self.level });
            assert(outputs@ =~= seq![LogOutput::Term { level: self.level }]);
        }
        registry.slot = Some(
            Logger {
                level: self.level,
                timestamps: self.timestamps,
                source_location: self.source_location,
                thread_info: self.thread_info,
                module_allow: self.module_allow,
                module_deny: self.module_deny,
                outputs,
            },
        );
        Ok(())
    }
}

impl<W> Default for LoggerBuilder<W> {
    fn default() -> (r: Self)
        ensures
            r@ == (Config::<W> {
                level: LogLevel::Info,
                timestamps: false,
                source_location: false,
                thread_info: false,
                allow: Seq::empty(),
                deny: Seq::empty(),
                outputs: Seq::empty(),
            }),
    {
        LoggerBuilder::new(None)
    }
}

/// The error of an initialization that found a logger already installed.
#[derive(Debug)]
pub struct InitError;

impl InitError {
    /// The diagnostic message.
    pub fn to_string(&self) -> (r: String)
        ensures
            r@ == "nanologger: logger already initialized"@,
    {
        "nanologger: logger already initialized".to_owned()
    }
}

/// The place of the one logger of a process: empty, or holding the logger
/// that the first initialization installed.
pub struct Registry<W> {
    slot: Option<Logger<W>>,
}

impl<W> View for Registry<W> {
    type V = Option<Config<W>>;

    closed spec fn view(&self) -> Option<Config<W>> {
        match self.slot {
            Some(logger) => Some(logger@),
            None => None,
        }
    }
}

impl<W> Registry<W> {
    /// An empty registry.
    pub fn new() -> (r: Self)
        ensures
            r@ is None,
    {
        Registry { slot: None }
    }

    /// Whether a logger has been installed.
    pub fn is_initialized(&self) -> (r: bool)
        ensures
            r == (self@ is Some),
    {
        self.slot.is_some()
    }

    /// The installed logger, if any.
    pub fn get(&self) -> (r: Option<&Logger<W>>)
        ensures
            match r {
                Some(logger) => self@ == Some(logger@),
                None => self@ is None,
            },
    {
        self.slot.as_ref()
    }
}

/// Installs a logger with every option at its default: the level that the
/// environment override names, else `Info`, and one terminal sink.
pub fn init<W>(registry: &mut Registry<W>, env_level: Option<&str>) -> (r: Result<(), InitError>)
    ensures
        old(registry)@ is Some ==> r is Err && *final(registry) == *old(registry),
        old(registry)@ is None ==> r is Ok && final(registry)@ == Some(
            Config::<W> {
                level: default_level(text_of(env_level)),
                timestamps: false,
                source_location: false,
                thread_info: false,
                allow: Seq::empty(),
                deny: Seq::empty(),
                outputs: seq![LogOutput::Term { level: default_level(text_of(env_level)) }],
            },
        ),
{
    let builder: LoggerBuilder<W> = LoggerBuilder::new(env_level);
    builder.init(registry)
}

/// Changes the global level of the installed logger, and nothing else: the
/// sinks keep their thresholds. An empty registry stays empty.
pub fn set_level<W>(registry: &mut Registry<W>, level: LogLevel)
    ensures
        final(registry)@ == set_level_outcome(old(registry)@, level),
{
    match &mut registry.slot {
        Some(logger) => {
            logger.level = level;
        },
        None => {},
    }
}

/// Dispatches one event through the installed logger. Before initialization
/// nothing is emitted.
pub fn __log_with_context<W>(
    registry: &Registry<W>,
    level: LogLevel,
    message: &str,
    path: &str,
    file: &str,
    line: u32,
    thread: &str,
    stderr_is_terminal: bool,
) -> (r: Vec<Emission>)
    ensures
        match registry@ {
            Some(config) => config.is_dispatch(
                level,
                message@,
                path@,
                file@,
                line as nat,
                thread@,
                stderr_is_terminal,
                emitted(r@),
            ),
            None => r@.len() == 0,
        },
{
    match registry.get() {
        Some(logger) => logger.dispatch(
            level,
            message,
            path,
            file,
            line,
            thread,
            stderr_is_terminal,
        ),
        None => Vec::new(),
    }
}

/// Initialization happens once. The first initialization of an empty
/// registry succeeds; a second one, whatever it asks for, fails and leaves
/// the configuration and the level of the first logger as they were.
pub proof fn lemma_second_init_refused<W>(first: Config<W>, second: Config<W>)
    ensures
        ({
            let once = init_outcome(None, first);
            let twice = init_outcome(once.0, second);
            &&& once.1
            &&& once.0 == Some(first.installed())
            &&& !twice.1
            &&& twice.0 == once.0
        }),
{
}

/// Once a registry holds a logger, no initialization succeeds and none
/// changes it, also after any change of the level.
pub proof fn lemma_init_refused_once_set<W>(
    state: Option<Config<W>>,
    level: LogLevel,
    config: Config<W>,
)
    requires
        state is Some,
    ensures
        init_outcome(state, config) == (state, false),
        init_outcome(set_level_outcome(state, level), config) == (
            set_level_outcome(state, level),
            false,
        ),
{
}

/// A change of the level touches the global level alone: the options, the
/// filter lists, the sinks and their thresholds stay, and an empty registry
/// stays empty. Setting the same level twice is the same as setting it once.
pub proof fn lemma_set_level_keeps_shape<W>(state: Option<Config<W>>, level: LogLevel)
    ensures
        state is None ==> set_level_outcome(state, level) is None,
        state is Some ==> ({
            let before = state->Some_0;
            let after = set_level_outcome(state, level)->Some_0;
            &&& set_level_outcome(state, level) is Some
            &&& after.level == level
            &&& after.timestamps == before.timestamps
            &&& after.source_location == before.source_location
            &&& after.thread_info == before.thread_info
            &&& after.allow == before.allow
            &&& after.deny == before.deny
            &&& after.outputs == before.outputs
        }),
        set_level_outcome(set_level_outcome(state, level), level) == set_level_outcome(
            state,
            level,
        ),
{
}

/// The global gate comes first: an event less severe than the global level
/// yields nothing, however lenient the sinks are, and so does an event that
/// the module filter rejects.
pub proof fn lemma_gates_stop_dispatch<W>(
    config: Config<W>,
    level: LogLevel,
    message: Seq<char>,
    path: Seq<char>,
    file: Seq<char>,
    line: nat,
    thread: Seq<char>,
    stderr_is_terminal: bool,
    got: Seq<(Target, Seq<char>)>,
)
    requires
        config.is_dispatch(level, message, path, file, line, thread, stderr_is_terminal, got),
        !level.at_least(config.level) || !filter_admits(path, config.allow, config.deny),
    ensures
        got.len() == 0,
{
}

/// A dispatch emits to a sink exactly if the event passes the global gate and
/// the module filter and is at least as severe as the sink's own threshold:
/// the sink at position `i` is then the sink of one of the emissions, and
/// otherwise of none.
pub proof fn lemma_dispatch_reaches<W>(
    config: Config<W>,
    level: LogLevel,
    message: Seq<char>,
    path: Seq<char>,
    file: Seq<char>,
    line: nat,
    thread: Seq<char>,
    stderr_is_terminal: bool,
    got: Seq<(Target, Seq<char>)>,
    i: int,
)
    requires
        config.is_dispatch(level, message, path, file, line, thread, stderr_is_terminal, got),
        0 <= i < config.outputs.len(),
    ensures
        config.admits(level, path) && level.at_least(config.outputs[i].threshold())
            <==> exists|k: int|
            0 <= k < got.len() && #[trigger] admitting(config.outputs, level)[k] == i,
{
    if config.admits(level, path) {
        if !config.timestamps {
            let event = config.event(level, message, None, file, line, thread);
            lemma_fan_out_reaches(config.outputs, event, stderr_is_terminal, got, i);
        } else {
            let stamp = choose|stamp: Seq<char>|
                is_clock_text(stamp) && is_fan_out(
                    config.outputs,
                    #[trigger] config.event(level, message, Some(stamp), file, line, thread),
                    stderr_is_terminal,
                    got,
                );
            let event = config.event(level, message, Some(stamp), file, line, thread);
            lemma_fan_out_reaches(config.outputs, event, stderr_is_terminal, got, i);
        }
    }
}

/// Plain lines stay plain. A dispatched line holds no color escape sequence,
/// unless it is the line of a terminal sink while standard error is a
/// terminal, provided that the message, the file name and the thread's name
/// hold none.
pub proof fn lemma_dispatch_without_escape<W>(
    config: Config<W>,
    level: LogLevel,
    message: Seq<char>,
    path: Seq<char>,
    file: Seq<char>,
    line: nat,
    thread: Seq<char>,
    stderr_is_terminal: bool,
    got: Seq<(Target, Seq<char>)>,
    k: int,
)
    requires
        config.is_dispatch(level, message, path, file, line, thread, stderr_is_terminal, got),
        0 <= k < got.len(),
        stderr_is_terminal ==> !(config.outputs[admitting(config.outputs, level)[k]] is Term),
        !has_escape(message),
        !has_escape(file),
        !has_escape(thread),
    ensures
        !has_escape(got[k].1),
{
    if !config.timestamps {
        let event = config.event(level, message, None, file, line, thread);
        assert(got[k].1 == event.plain_line());
        lemma_plain_line_without_escape(level, message, event.timestamp, event.place, event.thread);
    } else {
        let stamp = choose|stamp: Seq<char>|
            is_clock_text(stamp) && is_fan_out(
                config.outputs,
                #[trigger] config.event(level, message, Some(stamp), file, line, thread),
                stderr_is_terminal,
                got,
            );
        lemma_clock_text_without_escape(stamp);
        let event = config.event(level, message, Some(stamp), file, line, thread);
        assert(got[k].1 == event.plain_line());
        lemma_plain_line_without_escape(level, message, event.timestamp, event.place, event.thread);
    }
}

} // verus!
