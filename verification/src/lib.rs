//! A minimal leveled logger core: severity levels, line formatting, module
//! filtering, and the fan-out of an event over sinks that each have a
//! threshold of their own.
//!
//! The crate performs no I/O and keeps no global state. The one logger of a
//! process lives in a [`Registry`] that the caller owns; a dispatch returns
//! the lines to write, each with the destination it is bound for, and the
//! caller delivers them. What the core cannot know of the process (the
//! environment override of the default level, the name of the current
//! thread, whether standard error is a terminal) comes in as an argument.
//!
//! Two things are left to other crates and taken on trust: nanocolor
//! decorates the level tag for terminals, and nanotime reads the clock.

pub mod clock;
pub mod color;
pub mod facade;
pub mod filter;
pub mod format;
pub mod level;
pub mod logger;
pub mod output;
pub mod text;

pub use filter::matches_module_filter;
pub use format::{format_message, format_message_full, format_message_with_timestamp};
pub use level::{LogLevel, ParseLevelError};
pub use logger::{
    __log_with_context, init, set_level, thread_label, InitError, Logger, LoggerBuilder, Registry,
};
pub use output::{Emission, LogOutput, Target};
