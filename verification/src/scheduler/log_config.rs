//! What a reread of the configured log level leads to, and which failures
//! are worth a log line.
use vstd::prelude::*;

use crate::logger::{parse_level, LogLevel};

verus! {

/// The outcome of rereading the configured log level.
#[derive(Debug, Clone, Copy, PartialEq, Eq)]
pub enum LevelUpdate {
    /// The configured level is the one in use.
    Unchanged,
    /// The configured level differs: the logger moves to it.
    Changed(LogLevel),
    /// The configured text names no level.
    Invalid,
}

/// Decides what the configured level text means for a logger set to `current`.
pub fn level_update(current: LogLevel, configured: &str) -> (res: LevelUpdate)
    ensures
        res == match parse_level(configured@) {
            None => LevelUpdate::Invalid,
            Some(l) => if l == current {
                LevelUpdate::Unchanged
            } else {
                LevelUpdate::Changed(l)
            },
        },
{
    match LogLevel::parse(configured) {
        None => LevelUpdate::Invalid,
        Some(l) => if l.rank() == current.rank() {
            LevelUpdate::Unchanged
        } else {
            LevelUpdate::Changed(l)
        },
    }
}

/// Whether a failure message is worth a log line: it is, unless it repeats
/// the last one reported.
pub fn report_is_new(last: &Option<String>, message: &str) -> (res: bool)
    ensures
        res == !(last matches Some(m) && m@ == message@),
{
    match last {
        Some(m) => !crate::text::chars_eq(
            &crate::text::chars_of(m.as_str()),
            &crate::text::chars_of(message),
        ),
        None => true,
    }
}

} // verus!
