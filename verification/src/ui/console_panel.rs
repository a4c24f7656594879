//! Console/log state — a bounded log of entries with severity filtering.

use std::collections::VecDeque;
use vstd::prelude::*;

verus! {

/// Severity level for console entries, from least to most severe.
#[derive(Debug, Clone, Copy, PartialEq, Eq, PartialOrd, Ord, Structural)]
#[non_exhaustive]
pub enum LogLevel {
    Debug,
    Info,
    Warn,
    Error,
}

/// Position of a level in the severity order.
pub open spec fn severity(l: LogLevel) -> nat {
    match l {
        LogLevel::Debug => 0,
        LogLevel::Info => 1,
        LogLevel::Warn => 2,
        LogLevel::Error => 3,
    }
}

/// The short label of a level.
pub open spec fn level_label(l: LogLevel) -> Seq<char> {
    match l {
        LogLevel::Debug => "DBG"@,
        LogLevel::Info => "INF"@,
        LogLevel::Warn => "WRN"@,
        LogLevel::Error => "ERR"@,
    }
}

impl LogLevel {
    /// Short label for display.
    pub fn label(self) -> (r: &'static str)
        ensures
            r@ == level_label(self),
    {
        match self {
            LogLevel::Debug => "DBG",
            LogLevel::Info => "INF",
            LogLevel::Warn => "WRN",
            LogLevel::Error => "ERR",
        }
    }

    fn severity_exec(self) -> (r: u8)
        ensures
            r as nat == severity(self),
    {
        match self {
            LogLevel::Debug => 0,
            LogLevel::Info => 1,
            LogLevel::Warn => 2,
            LogLevel::Error => 3,
        }
    }
}

/// A single log entry.
#[derive(Debug, Clone)]
pub struct LogEntry {
    /// Severity level.
    pub level: LogLevel,
    /// Source module/system.
    pub source: String,
    /// Log message.
    pub message: String,
    /// Frame number when logged.
    pub frame: u64,
}

/// Console state — a log of entries (newest at back) holding at most `max_entries`.
pub struct Console {
    entries: VecDeque<LogEntry>,
    max_entries: usize,
    /// Minimum severity to display.
    pub min_level: LogLevel,
    /// Auto-scroll to bottom.
    pub auto_scroll: bool,
    frame: u64,
}

/// The abstract value of a [`Console`].
pub struct ConsoleView {
    /// Entries, oldest first.
    pub entries: Seq<LogEntry>,
    /// Capacity the console was made with.
    pub max_entries: nat,
    pub min_level: LogLevel,
    pub auto_scroll: bool,
    /// Frame stamped on new entries.
    pub frame: nat,
}

impl View for Console {
    type V = ConsoleView;

    closed spec fn view(&self) -> ConsoleView {
        ConsoleView {
            entries: self.entries@,
            max_entries: self.max_entries as nat,
            min_level: self.min_level,
            auto_scroll: self.auto_scroll,
            frame: self.frame as nat,
        }
    }
}

/// Whether an entry is at least as severe as `min`.
pub open spec fn at_least(min: LogLevel) -> spec_fn(LogEntry) -> bool {
    |e: LogEntry| severity(e.level) >= severity(min)
}

/// The entries that stay when one more is logged: the oldest is evicted once the
/// log holds `max` or more.
pub open spec fn kept_on_log(s: Seq<LogEntry>, max: nat) -> Seq<LogEntry> {
    if s.len() >= max && s.len() > 0 {
        s.drop_first()
    } else {
        s
    }
}

/// The number of entries after one more message is logged to a log of `n` entries with
/// capacity `max`: a console of capacity zero keeps nothing; a full one evicts the oldest.
pub open spec fn logged_len(n: nat, max: nat) -> nat {
    if max == 0 {
        n
    } else if n >= max {
        n
    } else {
        n + 1
    }
}

/// `new` is `old` after logging a `level` message from `source`: with capacity zero the
/// message is dropped; otherwise the oldest entry is evicted when the log is full and the
/// message is appended, stamped with the current frame.
pub open spec fn logged_as(old: ConsoleView, new: ConsoleView, level: LogLevel, source: Seq<char>, message: Seq<char>) -> bool {
    &&& new.max_entries == old.max_entries
    &&& new.min_level == old.min_level
    &&& new.auto_scroll == old.auto_scroll
    &&& new.frame == old.frame
    &&& new.entries.len() == logged_len(old.entries.len(), old.max_entries)
    &&& if old.max_entries == 0 {
        new.entries == old.entries
    } else {
        &&& new.entries.drop_last() == kept_on_log(old.entries, old.max_entries)
        &&& new.entries.len() == kept_on_log(old.entries, old.max_entries).len() + 1
        &&& new.entries.last().level == level
        &&& new.entries.last().source@ == source
        &&& new.entries.last().message@ == message
        &&& new.entries.last().frame == old.frame
    }
}

impl ConsoleView {
    /// The view with other entries.
    pub open spec fn with_entries(self, e: Seq<LogEntry>) -> ConsoleView {
        ConsoleView { entries: e, ..self }
    }
}

impl Default for Console {
    fn default() -> (r: Self)
        ensures
            r@.entries.len() == 0,
            r@.max_entries == 1000,
            r@.min_level == LogLevel::Info,
            r@.auto_scroll,
            r@.frame == 0,
    {
        Self::new(1000)
    }
}

impl Console {
    /// Create a console with the given capacity.
    pub fn new(max_entries: usize) -> (r: Self)
        ensures
            r@.entries.len() == 0,
            r@.max_entries == max_entries,
            r@.min_level == LogLevel::Info,
            r@.auto_scroll,
            r@.frame == 0,
    {
        Console {
            entries: VecDeque::with_capacity(max_entries),
            max_entries,
            min_level: LogLevel::Info,
            auto_scroll: true,
            frame: 0,
        }
    }

    /// Push a log entry stamped with the current frame. Evicts the oldest if at capacity;
    /// a console of capacity zero keeps nothing.
    pub fn log(&mut self, level: LogLevel, source: &str, message: &str)
        ensures
            logged_as(old(self)@, final(self)@, level, source@, message@),
    {
        if self.max_entries == 0 {
            return;
        }
        if self.entries.len() >= self.max_entries {
            let _ = self.entries.pop_front();
        }
        let ghost kept = self.entries@;
        self.entries.push_back(LogEntry {
            level,
            source: String::from_str(source),
            message: String::from_str(message),
            frame: self.frame,
        });
        proof {
            assert(self.entries@.drop_last() =~= kept);
            assert(kept =~= kept_on_log(old(self)@.entries, old(self)@.max_entries));
        }
    }

    /// Log at `Info` level.
    pub fn info(&mut self, source: &str, message: &str)
        ensures
            logged_as(old(self)@, final(self)@, LogLevel::Info, source@, message@),
    {
        self.log(LogLevel::Info, source, message);
    }

    /// Log at `Warn` level.
    pub fn warn(&mut self, source: &str, message: &str)
        ensures
            logged_as(old(self)@, final(self)@, LogLevel::Warn, source@, message@),
    {
        self.log(LogLevel::Warn, source, message);
    }

    /// Log at `Error` level.
    pub fn error(&mut self, source: &str, message: &str)
        ensures
            logged_as(old(self)@, final(self)@, LogLevel::Error, source@, message@),
    {
        self.log(LogLevel::Error, source, message);
    }

    /// Log at `Debug` level.
    pub fn debug(&mut self, source: &str, message: &str)
        ensures
            logged_as(old(self)@, final(self)@, LogLevel::Debug, source@, message@),
    {
        self.log(LogLevel::Debug, source, message);
    }

    /// Advance the frame counter.
    pub fn tick(&mut self)
        requires
            old(self)@.frame < u64::MAX,
        ensures
            final(self)@ == (ConsoleView { frame: old(self)@.frame + 1, ..old(self)@ }),
    {
        self.frame = self.frame + 1;
    }

    /// Set the minimum severity that `filtered_entries` shows.
    pub fn set_min_level(&mut self, level: LogLevel)
        ensures
            final(self)@ == (ConsoleView { min_level: level, ..old(self)@ }),
    {
        self.min_level = level;
    }

    /// The minimum severity that `filtered_entries` shows.
    pub fn min_level(&self) -> (r: LogLevel)
        ensures
            r == self@.min_level,
    {
        self.min_level
    }

    /// Set whether the view follows the newest entry.
    pub fn set_auto_scroll(&mut self, on: bool)
        ensures
            final(self)@ == (ConsoleView { auto_scroll: on, ..old(self)@ }),
    {
        self.auto_scroll = on;
    }

    /// Clear all entries.
    pub fn clear(&mut self)
        ensures
            final(self)@ == old(self)@.with_entries(Seq::empty()),
    {
        self.entries.clear();
    }

    /// The entries at or above the minimum level, oldest first.
    pub fn filtered_entries(&self) -> (r: Vec<&LogEntry>)
        ensures
            r@.unref() == self@.entries.filter(at_least(self@.min_level)),
    {
        let min = self.min_level.severity_exec();
        let mut out: Vec<&LogEntry> = Vec::new();
        let mut i: usize = 0;
        while i < self.entries.len()
            invariant
                i <= self.entries@.len(),
                min as nat == severity(self.min_level),
                out@.unref() == self.entries@.take(i as int).filter(at_least(self.min_level)),
            decreases self.entries@.len() - i,
        {
            let e = &self.entries[i];
            proof {
                assert(self.entries@.take(i + 1) == self.entries@.take(i as int).push(*e));
                self.entries@.take(i as int).lemma_filter_push(*e, at_least(self.min_level));
            }
            if e.level.severity_exec() >= min {
                let ghost before = out@;
                out.push(e);
                proof {
                    assert(out@.unref() =~= before.unref().push(*e));
                }
            }
            i = i + 1;
        }
        proof {
            assert(self.entries@.take(self.entries@.len() as int) == self.entries@);
        }
        out
    }

    /// Total entry count.
    pub fn len(&self) -> (r: usize)
        ensures
            r == self@.entries.len(),
    {
        self.entries.len()
    }

    /// Whether the console is empty.
    pub fn is_empty(&self) -> (r: bool)
        ensures
            r == (self@.entries.len() == 0),
    {
        self.entries.len() == 0
    }
}

/// Levels rank Debug < Info < Warn < Error, so an entry passes the filter exactly when its
/// level is at least the minimum in that order: a Debug entry is hidden from the default
/// Info filter, and an Error entry passes every filter.
pub proof fn law_levels_ordered(e: LogEntry)
    ensures
        severity(LogLevel::Debug) < severity(LogLevel::Info),
        severity(LogLevel::Info) < severity(LogLevel::Warn),
        severity(LogLevel::Warn) < severity(LogLevel::Error),
        e.level == LogLevel::Debug ==> !at_least(LogLevel::Info)(e),
        e.level == LogLevel::Info ==> !at_least(LogLevel::Warn)(e) && at_least(LogLevel::Info)(e),
        e.level == LogLevel::Warn ==> !at_least(LogLevel::Error)(e) && at_least(LogLevel::Warn)(e),
        e.level == LogLevel::Error ==> at_least(LogLevel::Error)(e),
        at_least(LogLevel::Debug)(e),
{
}

/// Logging keeps the console within its capacity: a log holding at most `capacity`
/// entries still does after one more message, and the entries that stay are the newest.
pub proof fn law_log_keeps_capacity(s: Seq<LogEntry>, max: nat)
    requires
        s.len() <= max,
    ensures
        logged_len(s.len(), max) <= max,
        kept_on_log(s, max) == s.subrange(s.len() - kept_on_log(s, max).len(), s.len() as int),
{
    if s.len() >= max && s.len() > 0 {
        assert(s.drop_first() =~= s.subrange(1, s.len() as int));
    } else {
        assert(s =~= s.subrange(0, s.len() as int));
    }
}

/// The number of entries after `k` messages logged to a fresh console of capacity `max`.
pub open spec fn len_after_logs(max: nat, k: nat) -> nat
    decreases k,
{
    if k == 0 {
        0
    } else {
        logged_len(len_after_logs(max, (k - 1) as nat), max)
    }
}

/// A fresh console holds `min(k, capacity)` entries after `k` messages, whatever ticks
/// come between them.
pub proof fn law_log_count(max: nat, k: nat)
    ensures
        len_after_logs(max, k) == if k < max { k } else { max },
    decreases k,
{
    if k > 0 {
        law_log_count(max, (k - 1) as nat);
    }
}

} // verus!
