//! Log levels and the level filter of the daemon's log.
use vstd::prelude::*;

use crate::text::{chars_eq, chars_of, trim, trim_end, trim_start, trimmed};

verus! {

/// How important a log message is; a logger set to one level keeps the
/// messages of that level and of every more important one.
#[derive(Debug, Clone, Copy, PartialEq, Eq, PartialOrd, Ord, Structural)]
pub enum LogLevel {
    Error,
    Warn,
    Info,
    Debug,
}

/// The position of a level from the most important (`Error`, 0) to the least.
pub open spec fn level_rank(level: LogLevel) -> nat {
    match level {
        LogLevel::Error => 0,
        LogLevel::Warn => 1,
        LogLevel::Info => 2,
        LogLevel::Debug => 3,
    }
}

/// The configuration name of a level.
pub open spec fn level_name(level: LogLevel) -> Seq<char> {
    match level {
        LogLevel::Error => "error"@,
        LogLevel::Warn => "warn"@,
        LogLevel::Info => "info"@,
        LogLevel::Debug => "debug"@,
    }
}

/// The tag of a level in a log line.
pub open spec fn level_label(level: LogLevel) -> Seq<char> {
    match level {
        LogLevel::Error => "ERROR"@,
        LogLevel::Warn => "WARN"@,
        LogLevel::Info => "INFO"@,
        LogLevel::Debug => "DEBUG"@,
    }
}

/// The level that a configuration value names, once trimmed.
pub open spec fn parse_level(value: Seq<char>) -> Option<LogLevel> {
    let t = trim(value);
    if t == "error"@ {
        Some(LogLevel::Error)
    } else if t == "warn"@ {
        Some(LogLevel::Warn)
    } else if t == "info"@ {
        Some(LogLevel::Info)
    } else if t == "debug"@ {
        Some(LogLevel::Debug)
    } else {
        None
    }
}

/// Whether a logger set to `configured` keeps a message of level `level`.
pub open spec fn keeps(configured: LogLevel, level: LogLevel) -> bool {
    level_rank(level) <= level_rank(configured)
}

/// Law: a level's name leads back to the level.
pub proof fn lemma_level_round_trip(level: LogLevel)
    ensures
        parse_level(level_name(level)) == Some(level),
{
    reveal_strlit("error");
    reveal_strlit("warn");
    reveal_strlit("info");
    reveal_strlit("debug");
    let n = level_name(level);
    assert(trim_start(n) == n);
    assert(trim_end(n) == n);
}

/// Law: every level keeps its own messages and errors; a message kept at one
/// level is kept at every less strict one; the default `Info` keeps errors,
/// warnings and information and drops debug messages.
pub proof fn lemma_level_filter(configured: LogLevel, looser: LogLevel, level: LogLevel)
    ensures
        keeps(configured, configured),
        keeps(configured, LogLevel::Error),
        keeps(configured, level) && level_rank(configured) <= level_rank(looser) ==> keeps(
            looser,
            level,
        ),
        keeps(LogLevel::Info, level) <==> level != LogLevel::Debug,
        keeps(configured, LogLevel::Debug) <==> configured == LogLevel::Debug,
{
}

impl LogLevel {
    pub fn rank(self) -> (res: u8)
        ensures
            res == level_rank(self),
    {
        match self {
            LogLevel::Error => 0,
            LogLevel::Warn => 1,
            LogLevel::Info => 2,
            LogLevel::Debug => 3,
        }
    }

    pub fn parse(value: &str) -> (res: Option<LogLevel>)
        ensures
            res == parse_level(value@),
    {
        let t = trimmed(&chars_of(value));
        if chars_eq(&t, &chars_of("error")) {
            Some(LogLevel::Error)
        } else if chars_eq(&t, &chars_of("warn")) {
            Some(LogLevel::Warn)
        } else if chars_eq(&t, &chars_of("info")) {
            Some(LogLevel::Info)
        } else if chars_eq(&t, &chars_of("debug")) {
            Some(LogLevel::Debug)
        } else {
            None
        }
    }

    pub fn name(self) -> (res: &'static str)
        ensures
            res@ == level_name(self),
    {
        match self {
            LogLevel::Error => "error",
            LogLevel::Warn => "warn",
            LogLevel::Info => "info",
            LogLevel::Debug => "debug",
        }
    }

    pub fn label(self) -> (res: &'static str)
        ensures
            res@ == level_label(self),
    {
        match self {
            LogLevel::Error => "ERROR",
            LogLevel::Warn => "WARN",
            LogLevel::Info => "INFO",
            LogLevel::Debug => "DEBUG",
        }
    }
}

/// A message that the level filter let through, waiting to be written.
pub struct LogRecord {
    pub level: LogLevel,
    pub message: String,
}

/// The abstract state of a logger: where it writes, the level it is set to,
/// and the records it kept that are not written yet.
pub ghost struct LoggerView {
    pub path: Seq<char>,
    pub level: LogLevel,
    pub pending: Seq<(LogLevel, Seq<char>)>,
}

/// The daemon's log: a file path, a level, and the records that passed the
/// level filter and wait for the writer.
pub struct Logger {
    path: String,
    level: LogLevel,
    pending: Vec<LogRecord>,
}

/// The abstract form of a record.
pub open spec fn record_view(r: LogRecord) -> (LogLevel, Seq<char>) {
    (r.level, r.message@)
}

impl View for Logger {
    type V = LoggerView;

    closed spec fn view(&self) -> LoggerView {
        LoggerView {
            path: self.path@,
            level: self.level,
            pending: self.pending@.map_values(|r: LogRecord| record_view(r)),
        }
    }
}

impl Logger {
    /// A logger for the file at `path`, set to `Info`, with nothing pending.
    pub fn new(path: &str) -> (res: Logger)
        ensures
            res@.path == path@,
            res@.level == LogLevel::Info,
            res@.pending == Seq::<(LogLevel, Seq<char>)>::empty(),
    {
        let res = Logger { path: path.to_owned(), level: LogLevel::Info, pending: Vec::new() };
        assert(res@.pending =~= Seq::<(LogLevel, Seq<char>)>::empty());
        res
    }

    pub fn set_level(&mut self, level: LogLevel)
        ensures
            final(self)@ == (LoggerView { level, ..old(self)@ }),
    {
        self.level = level;
    }

    pub fn level(&self) -> (res: LogLevel)
        ensures
            res == self@.level,
    {
        self.level
    }

    pub fn path(&self) -> (res: &str)
        ensures
            res@ == self@.path,
    {
        self.path.as_str()
    }

    /// Keeps `message` at `level` where the configured level lets it through.
    fn write(&mut self, level: LogLevel, message: String)
        ensures
            final(self)@.path == old(self)@.path,
            final(self)@.level == old(self)@.level,
            final(self)@.pending == if keeps(old(self)@.level, level) {
                old(self)@.pending.push((level, message@))
            } else {
                old(self)@.pending
            },
    {
        if level.rank() > self.level.rank() {
            return;
        }
        self.pending.push(LogRecord { level, message });
        assert(self@.pending =~= old(self)@.pending.push((level, message@)));
    }

    pub fn info(&mut self, message: String)
        ensures
            final(self)@.path == old(self)@.path,
            final(self)@.level == old(self)@.level,
            final(self)@.pending == if keeps(old(self)@.level, LogLevel::Info) {
                old(self)@.pending.push((LogLevel::Info, message@))
            } else {
                old(self)@.pending
            },
    {
        self.write(LogLevel::Info, message);
    }

    pub fn warn(&mut self, message: String)
        ensures
            final(self)@.path == old(self)@.path,
            final(self)@.level == old(self)@.level,
            final(self)@.pending == if keeps(old(self)@.level, LogLevel::Warn) {
                old(self)@.pending.push((LogLevel::Warn, message@))
            } else {
                old(self)@.pending
            },
    {
        self.write(LogLevel::Warn, message);
    }

    pub fn error(&mut self, message: String)
        ensures
            final(self)@.path == old(self)@.path,
            final(self)@.level == old(self)@.level,
            final(self)@.pending == if keeps(old(self)@.level, LogLevel::Error) {
                old(self)@.pending.push((LogLevel::Error, message@))
            } else {
                old(self)@.pending
            },
    {
        self.write(LogLevel::Error, message);
    }

    pub fn debug(&mut self, message: String)
        ensures
            final(self)@.path == old(self)@.path,
            final(self)@.level == old(self)@.level,
            final(self)@.pending == if keeps(old(self)@.level, LogLevel::Debug) {
                old(self)@.pending.push((LogLevel::Debug, message@))
            } else {
                old(self)@.pending
            },
    {
        self.write(LogLevel::Debug, message);
    }

    /// Hands out the records waiting to be written, oldest first, and
    /// forgets them.
    pub fn take_pending(&mut self) -> (res: Vec<LogRecord>)
        ensures
            res@.map_values(|r: LogRecord| record_view(r)) == old(self)@.pending,
            final(self)@ == (LoggerView { pending: Seq::empty(), ..old(self)@ }),
    {
        let mut res: Vec<LogRecord> = Vec::new();
        std::mem::swap(&mut res, &mut self.pending);
        assert(self@.pending =~= Seq::<(LogLevel, Seq<char>)>::empty());
        res
    }
}

/// The line of the log file that a record becomes: `[timestamp] [LABEL] message`.
pub open spec fn log_line(timestamp: Seq<char>, level: LogLevel, message: Seq<char>) -> Seq<char> {
    "["@ + timestamp + "] ["@ + level_label(level) + "] "@ + message
}

/// The log line of `record`, stamped with `timestamp`.
pub fn format_record(timestamp: &str, record: &LogRecord) -> (res: String)
    ensures
        res@ == log_line(timestamp@, record.level, record.message@),
{
    let mut res = String::from_str("[");
    res.append(timestamp);
    res.append("] [");
    res.append(record.level.label());
    res.append("] ");
    res.append(record.message.as_str());
    res
}

} // verus!
