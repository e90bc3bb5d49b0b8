use vstd::prelude::*;

verus! {

/// Number of messages the log panel keeps.
pub const LOG_CAPACITY: usize = 200;

/// Severity of a log message.
#[derive(PartialEq, Eq, Structural, Clone, Copy, Debug)]
pub enum LogLevel {
    Error,
    Warn,
    Info,
    Debug,
    Trace,
}

/// How a level is written in a log line.
pub open spec fn level_name(level: LogLevel) -> Seq<char> {
    match level {
        LogLevel::Error => seq!['E', 'R', 'R', 'O', 'R'],
        LogLevel::Warn => seq!['W', 'A', 'R', 'N'],
        LogLevel::Info => seq!['I', 'N', 'F', 'O'],
        LogLevel::Debug => seq!['D', 'E', 'B', 'U', 'G'],
        LogLevel::Trace => seq!['T', 'R', 'A', 'C', 'E'],
    }
}

impl LogLevel {
    /// The name of the level as it appears in a log line.
    pub fn as_str(&self) -> (r: &'static str)
        ensures
            r@ == level_name(*self),
    {
        match self {
            LogLevel::Error => {
                proof {
                    reveal_strlit("ERROR");
                }
                "ERROR"
            },
            LogLevel::Warn => {
                proof {
                    reveal_strlit("WARN");
                }
                "WARN"
            },
            LogLevel::Info => {
                proof {
                    reveal_strlit("INFO");
                }
                "INFO"
            },
            LogLevel::Debug => {
                proof {
                    reveal_strlit("DEBUG");
                }
                "DEBUG"
            },
            LogLevel::Trace => {
                proof {
                    reveal_strlit("TRACE");
                }
                "TRACE"
            },
        }
    }
}

/// The text of a log line: `[time] [LEVEL] message`.
pub open spec fn entry_text(timestamp: Seq<char>, level: LogLevel, args: Seq<char>) -> Seq<char> {
    seq!['['] + timestamp + seq![']', ' ', '['] + level_name(level) + seq![']', ' '] + args
}

/// The messages after one more is logged: it is appended and, when that
/// makes more than 200, the oldest one is dropped.
pub open spec fn after_log(messages: Seq<Seq<char>>, entry: Seq<char>) -> Seq<Seq<char>> {
    let grown = messages.push(entry);
    if grown.len() > LOG_CAPACITY {
        grown.subrange(1, grown.len() as int)
    } else {
        grown
    }
}

/// The messages after a series of entries is logged, one after another.
pub open spec fn after_log_all(messages: Seq<Seq<char>>, entries: Seq<Seq<char>>) -> Seq<Seq<char>>
    decreases entries.len(),
{
    if entries.len() == 0 {
        messages
    } else {
        after_log(after_log_all(messages, entries.drop_last()), entries.last())
    }
}

/// Builds a log line `[time] [LEVEL] message`.
pub fn format_entry(timestamp: &str, level: LogLevel, args: &str) -> (r: String)
    ensures
        r@ == entry_text(timestamp@, level, args@),
{
    let mut s = String::from_str("[");
    s.append(timestamp);
    s.append("] [");
    s.append(level.as_str());
    s.append("] ");
    s.append(args);
    proof {
        reveal_strlit("[");
        reveal_strlit("] [");
        reveal_strlit("] ");
        assert(s@ =~= entry_text(timestamp@, level, args@));
    }
    s
}

/// The buffer behind the log panel: the latest log lines, oldest first.
pub struct EguiLogger {
    buffer: Vec<String>,
}

impl EguiLogger {
    /// The lines held, oldest first.
    pub closed spec fn messages(&self) -> Seq<Seq<char>> {
        self.buffer@.map_values(|s: String| s@)
    }

    /// Every level is accepted.
    pub fn enabled(&self, level: LogLevel) -> (r: bool)
        ensures
            r,
    {
        true
    }

    /// Appends a line; when that makes more than 200 lines, the oldest is
    /// dropped.
    pub fn record(&mut self, entry: String)
        ensures
            final(self).messages() == after_log(old(self).messages(), entry@),
    {
        self.buffer.push(entry);
        if self.buffer.len() > LOG_CAPACITY {
            self.buffer.remove(0);
        }
        assert(self.messages() =~= after_log(old(self).messages(), entry@));
    }

    /// Logs a message stamped with the given time of day.
    pub fn log_at(&mut self, timestamp: &str, level: LogLevel, args: &str)
        ensures
            final(self).messages() == after_log(
                old(self).messages(),
                entry_text(timestamp@, level, args@),
            ),
    {
        if self.enabled(level) {
            let entry = format_entry(timestamp, level, args);
            self.record(entry);
        }
    }

    /// Nothing is buffered outside the lines themselves.
    pub fn flush(&self) {
    }

    /// The lines held, oldest first.
    pub fn lines(&self) -> (r: &Vec<String>)
        ensures
            r@.map_values(|s: String| s@) == self.messages(),
    {
        &self.buffer
    }

    /// Drops every line.
    pub fn clear(&mut self)
        ensures
            final(self).messages() == Seq::<Seq<char>>::empty(),
    {
        self.buffer.clear();
        assert(self.messages() =~= Seq::<Seq<char>>::empty());
    }
}

/// A logger that writes into the given buffer of lines.  It is only the
/// buffer: installing it as the process's logger, and the level filter, are
/// not done here.
pub fn init(buffer: Vec<String>) -> (r: EguiLogger)
    ensures
        r.messages() == buffer@.map_values(|s: String| s@),
{
    EguiLogger { buffer }
}

/// Logging never lets the buffer grow past 200 lines, and it keeps the new
/// line as the latest one.
pub proof fn lemma_log_bounded(messages: Seq<Seq<char>>, entry: Seq<char>)
    requires
        messages.len() <= LOG_CAPACITY,
    ensures
        after_log(messages, entry).len() <= LOG_CAPACITY,
        after_log(messages, entry).len() > 0,
        after_log(messages, entry).last() == entry,
{
}

/// Starting from an empty buffer, logging a series of lines leaves exactly
/// the latest 200 of them (all of them when there are fewer), in order.
pub proof fn lemma_log_keeps_latest(entries: Seq<Seq<char>>)
    ensures
        after_log_all(Seq::empty(), entries) == if entries.len() > LOG_CAPACITY {
            entries.subrange(entries.len() - LOG_CAPACITY, entries.len() as int)
        } else {
            entries
        },
    decreases entries.len(),
{
    if entries.len() > 0 {
        let prev = entries.drop_last();
        lemma_log_keeps_latest(prev);
        let before = after_log_all(Seq::empty(), prev);
        if entries.len() > LOG_CAPACITY {
            if prev.len() > LOG_CAPACITY {
                assert(after_log(before, entries.last()) =~= entries.subrange(
                    entries.len() - LOG_CAPACITY,
                    entries.len() as int,
                ));
            } else {
                assert(after_log(before, entries.last()) =~= entries.subrange(
                    entries.len() - LOG_CAPACITY,
                    entries.len() as int,
                ));
            }
        } else {
            assert(before.push(entries.last()) =~= entries);
        }
    }
}

} // verus!
