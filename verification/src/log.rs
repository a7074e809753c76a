//! Log levels: which lines are printed, and what they look like.
//!
//! Warnings and errors always print. Info goes quiet on request; debug needs
//! to be asked for, and goes quiet too. A flag and the environment count
//! alike, and quiet wins.
use crate::text::{glue, lowered, same, to_lowered, trim, trimmed};
use vstd::prelude::*;

verus! {

/// What a value of the environment reads as: without the white space around
/// it, in lower case.
pub open spec fn read_as(value: Seq<char>) -> Seq<char> {
    lowered(trimmed(value))
}

/// Whether a value of the environment says yes.
pub open spec fn says_yes(value: Option<Seq<char>>) -> bool {
    match value {
        Some(value) => read_as(value) == "1"@ || read_as(value) == "true"@ || read_as(value)
            == "yes"@ || read_as(value) == "on"@,
        None => false,
    }
}

/// Whether a value of the environment says yes.
pub fn truthy(value: Option<&str>) -> (r: bool)
    ensures
        r == says_yes(crate::text::opt_str(value)),
{
    match value {
        Some(value) => {
            let value = to_lowered(trim(value).as_str());
            same(value.as_str(), "1") || same(value.as_str(), "true") || same(
                value.as_str(),
                "yes",
            ) || same(value.as_str(), "on")
        },
        None => false,
    }
}

/// Whether the level variable asks for debug lines.
pub open spec fn asks_verbose(log: Option<Seq<char>>) -> bool {
    log matches Some(log) && (read_as(log) == "debug"@ || read_as(log) == "trace"@)
}

/// Whether the level variable asks for quiet.
pub open spec fn asks_quiet(log: Option<Seq<char>>) -> bool {
    log matches Some(log) && (read_as(log) == "quiet"@ || read_as(log) == "off"@ || read_as(log)
        == "none"@ || read_as(log) == "silent"@)
}

/// What the environment asks for, debug lines and quiet, given the values of
/// `WWRPC_LOG`, `WWRPC_VERBOSE` and `WWRPC_QUIET`.
pub fn level_from_env(log: Option<&str>, verbose: Option<&str>, quiet: Option<&str>) -> (r: (
    bool,
    bool,
))
    ensures
        r.0 == (says_yes(crate::text::opt_str(verbose)) || asks_verbose(
            crate::text::opt_str(log),
        )),
        r.1 == (says_yes(crate::text::opt_str(quiet)) || asks_quiet(crate::text::opt_str(log))),
{
    let (by_level, by_quiet): (bool, bool) = match log {
        Some(log) => {
            let log = to_lowered(trim(log).as_str());
            (
                same(log.as_str(), "debug") || same(log.as_str(), "trace"),
                same(log.as_str(), "quiet") || same(log.as_str(), "off") || same(
                    log.as_str(),
                    "none",
                ) || same(log.as_str(), "silent"),
            )
        },
        None => (false, false),
    };
    (truthy(verbose) || by_level, truthy(quiet) || by_quiet)
}

/// The levels in force.
#[derive(Clone, Copy, Debug, PartialEq, Eq)]
pub struct Levels {
    pub verbose: bool,
    pub quiet: bool,
}

/// The levels from the flags and from what the environment asks for.
pub fn configure(verbose: bool, quiet: bool, env: (bool, bool)) -> (r: Levels)
    ensures
        r.verbose == (verbose || env.0),
        r.quiet == (quiet || env.1),
{
    Levels { verbose: verbose || env.0, quiet: quiet || env.1 }
}

/// Whether debug lines print.
pub fn is_verbose(levels: &Levels) -> (r: bool)
    ensures
        r == (levels.verbose && !levels.quiet),
{
    levels.verbose && !levels.quiet
}

/// Whether info and debug lines are silenced.
pub fn is_quiet(levels: &Levels) -> (r: bool)
    ensures
        r == levels.quiet,
{
    levels.quiet
}

/// A line of the log.
pub open spec fn line(time: Seq<char>, level: Seq<char>, message: Seq<char>) -> Seq<char> {
    "["@ + time + " "@ + level + "] "@ + message
}

/// Writes a line of the log.
fn emit(time: &str, level: &str, message: &str) -> (r: String)
    ensures
        r@ == line(time@, level@, message@),
{
    let start = glue(glue("[", time).as_str(), " ");
    let head = glue(glue(start.as_str(), level).as_str(), "] ");
    glue(head.as_str(), message)
}

/// The line of a change of state, unless quiet.
pub fn info(levels: &Levels, time: &str, message: &str) -> (r: Option<String>)
    ensures
        crate::text::opt_view(r) == if levels.quiet {
            None
        } else {
            Some(line(time@, "INFO"@, message@))
        },
{
    if levels.quiet {
        None
    } else {
        Some(emit(time, "INFO", message))
    }
}

/// The line of a problem that passes. Always printed.
pub fn warn(time: &str, message: &str) -> (r: String)
    ensures
        r@ == line(time@, "WARN"@, message@),
{
    emit(time, "WARN", message)
}

/// The line of a failure. Always printed.
pub fn error(time: &str, message: &str) -> (r: String)
    ensures
        r@ == line(time@, "ERROR"@, message@),
{
    emit(time, "ERROR", message)
}

/// The line of an internal detail, where it was asked for and not silenced.
pub fn debug(levels: &Levels, time: &str, message: &str) -> (r: Option<String>)
    ensures
        crate::text::opt_view(r) == if levels.verbose && !levels.quiet {
            Some(line(time@, "DEBUG"@, message@))
        } else {
            None
        },
{
    if levels.verbose && !levels.quiet {
        Some(emit(time, "DEBUG", message))
    } else {
        None
    }
}

/// Quiet wins: whoever asks for it, no debug line prints, whoever asked for
/// those.
pub proof fn quiet_wins(verbose: bool, quiet: bool, env: (bool, bool), levels: Levels)
    requires
        levels == (Levels { verbose: verbose || env.0, quiet: quiet || env.1 }),
        quiet || env.1,
    ensures
        levels.quiet,
        !(levels.verbose && !levels.quiet),
{
}

/// A value says yes exactly when it is one of four words, in any ASCII case and
/// with white space around it at most.
pub proof fn four_words_say_yes(value: Option<&str>, r: bool)
    requires
        call_ensures(truthy, (value,), r),
    ensures
        value is None ==> !r,
        value matches Some(value) ==> ({
            let word = lowered(trimmed(value@));
            r <==> word == "1"@ || word == "true"@ || word == "yes"@ || word == "on"@
        }),
{
}

/// What the environment asks for: each switch by its own variable, or by a word
/// of the level variable.
pub proof fn levels_come_from_the_environment(
    log: Option<&str>,
    verbose: Option<&str>,
    quiet: Option<&str>,
    yes: (bool, bool),
    r: (bool, bool),
)
    requires
        call_ensures(level_from_env, (log, verbose, quiet), r),
        call_ensures(truthy, (verbose,), yes.0),
        call_ensures(truthy, (quiet,), yes.1),
    ensures
        log is None ==> r == yes,
        log matches Some(log) ==> ({
            let word = lowered(trimmed(log@));
            &&& r.0 <==> yes.0 || word == "debug"@ || word == "trace"@
            &&& r.1 <==> yes.1 || word == "quiet"@ || word == "off"@ || word == "none"@ || word
                == "silent"@
        }),
{
}

/// Which lines print: warnings and errors always, info unless quiet, debug
/// where it was asked for and nobody asked for quiet. Each says when, what kind
/// it is, and the message.
pub proof fn lines_print_by_level(
    flags: (bool, bool),
    env: (bool, bool),
    levels: Levels,
    time: &str,
    message: &str,
    told: (Option<String>, Option<String>),
    always: (String, String),
    known: (bool, bool),
)
    requires
        call_ensures(configure, (flags.0, flags.1, env), levels),
        call_ensures(info, (&levels, time, message), told.0),
        call_ensures(debug, (&levels, time, message), told.1),
        call_ensures(warn, (time, message), always.0),
        call_ensures(error, (time, message), always.1),
        call_ensures(is_verbose, (&levels,), known.0),
        call_ensures(is_quiet, (&levels,), known.1),
    ensures
        ({
            let quiet = flags.1 || env.1;
            let verbose = (flags.0 || env.0) && !quiet;
            &&& known == (verbose, quiet)
            &&& told.0 is Some <==> !quiet
            &&& told.0 matches Some(line) ==> line@ == "["@ + time@ + " "@ + "INFO"@ + "] "@
                + message@
            &&& told.1 is Some <==> verbose
            &&& told.1 matches Some(line) ==> line@ == "["@ + time@ + " "@ + "DEBUG"@ + "] "@
                + message@
            &&& always.0@ == "["@ + time@ + " "@ + "WARN"@ + "] "@ + message@
            &&& always.1@ == "["@ + time@ + " "@ + "ERROR"@ + "] "@ + message@
        }),
{
}

} // verus!
