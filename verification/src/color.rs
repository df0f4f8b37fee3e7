//! The decoration of level tags for terminals that show color. The
//! decorating itself is nanocolor's; this module says what comes back.

use crate::level::LogLevel;
use nanocolor::Colorize;
use vstd::prelude::*;
use vstd::string::*;

verus! {

/// The foreground color number of a level's tag: red, yellow, green, blue,
/// magenta.
pub open spec fn color_code(level: LogLevel) -> Seq<char> {
    match level {
        LogLevel::Error => "31"@,
        LogLevel::Warn => "33"@,
        LogLevel::Info => "32"@,
        LogLevel::Debug => "34"@,
        LogLevel::Trace => "35"@,
    }
}

/// A text wrapped in the escape sequences for bold weight and the given
/// foreground color number, closed by a reset.
pub open spec fn decorated(text: Seq<char>, code: Seq<char>) -> Seq<char> {
    "\x1b[1;"@ + code + "m"@ + text + "\x1b[0m"@
}

/// A level's tag in bold and in the level's color.
pub open spec fn colored_tag(level: LogLevel) -> Seq<char> {
    decorated(level.tag_text(), color_code(level))
}

/// Calls nanocolor's `red` and `bold` on the text and renders the result to a
/// string. Trusted: the rendering is the text itself where nanocolor has
/// color switched off, and otherwise the text between `ESC[1;31m` and
/// `ESC[0m`. Which of the two depends on the process, so both are allowed.
#[verifier::external_body]
fn bold_red(text: &str) -> (r: String)
    ensures
        r@ == text@ || r@ == decorated(text@, "31"@),
{
    text.red().bold().to_string()
}

/// Calls nanocolor's `yellow` and `bold` on the text and renders the result
/// to a string. Trusted: the text itself, or the text between `ESC[1;33m` and
/// `ESC[0m`.
#[verifier::external_body]
fn bold_yellow(text: &str) -> (r: String)
    ensures
        r@ == text@ || r@ == decorated(text@, "33"@),
{
    text.yellow().bold().to_string()
}

/// Calls nanocolor's `green` and `bold` on the text and renders the result to
/// a string. Trusted: the text itself, or the text between `ESC[1;32m` and
/// `ESC[0m`.
#[verifier::external_body]
fn bold_green(text: &str) -> (r: String)
    ensures
        r@ == text@ || r@ == decorated(text@, "32"@),
{
    text.green().bold().to_string()
}

/// Calls nanocolor's `blue` and `bold` on the text and renders the result to
/// a string. Trusted: the text itself, or the text between `ESC[1;34m` and
/// `ESC[0m`.
#[verifier::external_body]
fn bold_blue(text: &str) -> (r: String)
    ensures
        r@ == text@ || r@ == decorated(text@, "34"@),
{
    text.blue().bold().to_string()
}

/// Calls nanocolor's `magenta` and `bold` on the text and renders the result
/// to a string. Trusted: the text itself, or the text between `ESC[1;35m` and
/// `ESC[0m`.
#[verifier::external_body]
fn bold_magenta(text: &str) -> (r: String)
    ensures
        r@ == text@ || r@ == decorated(text@, "35"@),
{
    text.magenta().bold().to_string()
}

/// The level's tag as the color engine renders it: bold and in the level's
/// color where the engine has color switched on, plain where it has not.
pub fn styled_tag(level: LogLevel) -> (r: String)
    ensures
        r@ == level.tag_text() || r@ == colored_tag(level),
{
    let tag = level.tag();
    match level {
        LogLevel::Error => bold_red(tag.as_str()),
        LogLevel::Warn => bold_yellow(tag.as_str()),
        LogLevel::Info => bold_green(tag.as_str()),
        LogLevel::Debug => bold_blue(tag.as_str()),
        LogLevel::Trace => bold_magenta(tag.as_str()),
    }
}

} // verus!
