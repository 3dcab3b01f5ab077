//! The log of the daemon, kept in memory for the log viewer.

use crate::text::{has_prefix, same, starts_with};
use std::collections::VecDeque;
use vstd::prelude::*;

verus! {

/// How many entries are kept.
pub const LOG_LIMIT: usize = 2000;

/// One entry of the log.
#[derive(Debug)]
pub struct LogEntry {
    pub level: String,
    pub target: String,
    pub message: String,
    pub timestamp: String,
}

/// What a `LogEntry` says.
pub struct Line {
    pub level: Seq<char>,
    pub target: Seq<char>,
    pub message: Seq<char>,
    pub timestamp: Seq<char>,
}

impl View for LogEntry {
    type V = Line;

    open spec fn view(&self) -> Line {
        Line {
            level: self.level@,
            target: self.target@,
            message: self.message@,
            timestamp: self.timestamp@,
        }
    }
}

impl Clone for LogEntry {
    fn clone(&self) -> (r: LogEntry)
        ensures
            r@ == self@,
    {
        LogEntry {
            level: self.level.clone(),
            target: self.target.clone(),
            message: self.message.clone(),
            timestamp: self.timestamp.clone(),
        }
    }
}

/// What the entries of a list say.
pub open spec fn lines(list: Seq<LogEntry>) -> Seq<Line> {
    list.map_values(|e: LogEntry| e@)
}

/// The level under which a message is kept: what comes from the bus is traced,
/// and what comes from the hardware is never finer than "INFO".
pub open spec fn kept_level(level: Seq<char>, target: Seq<char>, message: Seq<char>) -> Seq<char> {
    if has_prefix(target, "zbus"@) || has_prefix(message, "zbus::"@) {
        "TRACE"@
    } else if has_prefix(target, "hw."@) && level == "DEBUG"@ {
        "INFO"@
    } else {
        level
    }
}

/// Whether two lines say the same, whenever they do.
pub open spec fn same_line(a: Line, b: Line) -> bool {
    a.level == b.level && a.target == b.target && a.message == b.message
}

/// The log after one more line: one that only repeats the last is left out, and
/// a full log loses its oldest.
pub open spec fn logged(log: Seq<Line>, line: Line) -> Seq<Line> {
    if log.len() > 0 && same_line(log.last(), line) {
        log
    } else if log.len() >= LOG_LIMIT {
        log.drop_first().push(line)
    } else {
        log.push(line)
    }
}

/// The log after several more lines.
pub open spec fn all_logged(log: Seq<Line>, more: Seq<Line>) -> Seq<Line>
    decreases more.len(),
{
    if more.len() == 0 {
        log
    } else {
        logged(all_logged(log, more.drop_last()), more.last())
    }
}

/// The log in memory.
#[derive(Debug)]
pub struct LogBuffer {
    entries: VecDeque<LogEntry>,
}

impl View for LogBuffer {
    type V = Seq<Line>;

    closed spec fn view(&self) -> Seq<Line> {
        lines(self.entries@)
    }
}

fn level_to_keep(level: &str, target: &str, message: &str) -> (r: String)
    ensures
        r@ == kept_level(level@, target@, message@),
{
    if starts_with(target, "zbus") || starts_with(message, "zbus::") {
        "TRACE".to_string()
    } else if starts_with(target, "hw.") && same(level, "DEBUG") {
        "INFO".to_string()
    } else {
        level.to_string()
    }
}

impl LogBuffer {
    #[verifier::type_invariant]
    spec fn within_the_limit(self) -> bool {
        self.entries@.len() <= LOG_LIMIT
    }

    /// An empty log.
    pub fn new() -> (r: LogBuffer)
        ensures
            r@ == Seq::<Line>::empty(),
    {
        let r = LogBuffer { entries: VecDeque::with_capacity(LOG_LIMIT) };
        assert(lines(r.entries@) =~= Seq::<Line>::empty());
        r
    }

    /// How many entries the log holds at most.
    pub fn capacity(&self) -> (r: usize)
        ensures
            r == LOG_LIMIT,
            self@.len() <= r,
    {
        proof {
            use_type_invariant(self);
        }
        LOG_LIMIT
    }

    /// How many entries the log holds.
    pub fn len(&self) -> (r: usize)
        ensures
            r == self@.len(),
    {
        self.entries.len()
    }

    /// Keeps a message, whatever its level.
    pub fn log(&mut self, level: &str, target: &str, message: &str, timestamp: &str)
        ensures
            final(self)@ == logged(
                old(self)@,
                Line {
                    level: kept_level(level@, target@, message@),
                    target: target@,
                    message: message@,
                    timestamp: timestamp@,
                },
            ),
    {
        proof {
            use_type_invariant(&*self);
        }
        let entry = LogEntry {
            level: level_to_keep(level, target, message),
            target: target.to_string(),
            message: message.to_string(),
            timestamp: timestamp.to_string(),
        };
        let mut entries: VecDeque<LogEntry> = VecDeque::new();
        std::mem::swap(&mut entries, &mut self.entries);
        let ghost before = entries@;
        let n = entries.len();
        let repeated = if n > 0 {
            let last = &entries[n - 1];
            assert(lines(before).last() == last@);
            same(last.level.as_str(), entry.level.as_str()) && same(
                last.target.as_str(),
                entry.target.as_str(),
            ) && same(last.message.as_str(), entry.message.as_str())
        } else {
            false
        };
        if !repeated {
            let ghost line = entry@;
            if n >= LOG_LIMIT {
                let _ = entries.pop_front();
                assert(lines(entries@) =~= lines(before).drop_first());
            }
            let ghost middle = entries@;
            entries.push_back(entry);
            assert(lines(entries@) =~= lines(middle).push(line));
        }
        self.entries = entries;
    }

    /// The entries, oldest first.
    pub fn entries(&self) -> (r: Vec<LogEntry>)
        ensures
            lines(r@) == self@,
    {
        let mut out: Vec<LogEntry> = Vec::new();
        let mut i: usize = 0;
        while i < self.entries.len()
            invariant
                i <= self.entries@.len(),
                out@.len() == i,
                forall|k: int| 0 <= k < i ==> (#[trigger] out@[k])@ == self.entries@[k]@,
            decreases self.entries@.len() - i,
        {
            out.push(self.entries[i].clone());
            i = i + 1;
        }
        assert(lines(out@) =~= self@);
        out
    }
}

/// No line says the same as the one before it.
pub open spec fn no_repeats(log: Seq<Line>) -> bool {
    forall|i: int|
        0 <= i && i + 1 < log.len() ==> !same_line(#[trigger] log[i], log[i + 1])
}

/// Whatever is logged, the log holds at most its limit, never repeats a line
/// and ends with what was logged last.
pub proof fn law_log(log: Seq<Line>, more: Seq<Line>)
    requires
        log.len() <= LOG_LIMIT,
        no_repeats(log),
    ensures
        all_logged(log, more).len() <= LOG_LIMIT,
        no_repeats(all_logged(log, more)),
        more.len() > 0 ==> all_logged(log, more).len() > 0 && same_line(
            all_logged(log, more).last(),
            more.last(),
        ),
    decreases more.len(),
{
    if more.len() > 0 {
        law_log(log, more.drop_last());
        let before = all_logged(log, more.drop_last());
        let after = logged(before, more.last());
        if after != before {
            assert forall|i: int| 0 <= i && i + 1 < after.len() implies !same_line(
                #[trigger] after[i],
                after[i + 1],
            ) by {
                if before.len() >= LOG_LIMIT {
                    assert(after[i] == before[i + 1]);
                    if i + 2 < before.len() {
                        assert(after[i + 1] == before[i + 2]);
                    }
                } else {
                    assert(after[i] == before[i]);
                    if i + 1 < before.len() {
                        assert(after[i + 1] == before[i + 1]);
                    }
                }
            }
        }
    }
}

} // verus!
