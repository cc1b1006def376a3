//! How long the phases of a diff take.

use vstd::prelude::*;

verus! {

/// The environment variable that turns the timing log on.
pub const TIMINGS_ENV: &'static str = "DFT_TIMINGS";

/// A phase of a semantic diff.
#[derive(Debug, Clone, Copy, PartialEq, Eq, Structural)]
pub enum Phase {
    GuessLanguage,
    Created,
    Deleted,
    UnchangedBytes,
    LanguageConfig,
    Parse,
    Syntax,
    Unchanged,
    Dijkstra,
    Sliders,
    Positions,
    LineDiff,
    SemanticConvert,
}

impl Phase {
    /// The name under which a phase is logged.
    pub open spec fn name(self) -> Seq<char> {
        match self {
            Phase::GuessLanguage => "guess_language"@,
            Phase::Created => "created"@,
            Phase::Deleted => "deleted"@,
            Phase::UnchangedBytes => "unchanged_bytes"@,
            Phase::LanguageConfig => "language_config"@,
            Phase::Parse => "parse"@,
            Phase::Syntax => "syntax"@,
            Phase::Unchanged => "unchanged"@,
            Phase::Dijkstra => "dijkstra"@,
            Phase::Sliders => "sliders"@,
            Phase::Positions => "positions"@,
            Phase::LineDiff => "line_diff"@,
            Phase::SemanticConvert => "semantic_convert"@,
        }
    }

    /// The name under which a phase is logged.
    pub fn label(self) -> (r: &'static str)
        ensures
            r@ == self.name(),
    {
        match self {
            Phase::GuessLanguage => "guess_language",
            Phase::Created => "created",
            Phase::Deleted => "deleted",
            Phase::UnchangedBytes => "unchanged_bytes",
            Phase::LanguageConfig => "language_config",
            Phase::Parse => "parse",
            Phase::Syntax => "syntax",
            Phase::Unchanged => "unchanged",
            Phase::Dijkstra => "dijkstra",
            Phase::Sliders => "sliders",
            Phase::Positions => "positions",
            Phase::LineDiff => "line_diff",
            Phase::SemanticConvert => "semantic_convert",
        }
    }
}

/// The times of one diff, in nanoseconds from a fixed moment.
#[derive(Debug)]
pub struct TimingLog<'a> {
    pub display_path: &'a str,
    pub start: u128,
    pub last: u128,
}

/// An entry of the timing log: the time since the entry before, and the time
/// since the log began, in nanoseconds.
#[derive(Debug, Clone, Copy, PartialEq, Eq)]
pub struct TimingEntry<'a, 'b> {
    pub display_path: &'a str,
    pub phase: &'b str,
    pub elapsed: u128,
    pub total: u128,
}

/// The time from one moment to another, and none where the other comes first.
pub open spec fn time_since(earlier: u128, now: u128) -> u128 {
    if earlier <= now {
        (now - earlier) as u128
    } else {
        0
    }
}

impl<'a> TimingLog<'a> {
    /// The entry for a phase that ends now.
    pub open spec fn entry<'b>(self, phase: &'b str, now: u128) -> TimingEntry<'a, 'b> {
        TimingEntry {
            display_path: self.display_path,
            phase,
            elapsed: time_since(self.last, now),
            total: time_since(self.start, now),
        }
    }

    /// Begins a log, where logging is turned on.
    pub fn new(display_path: &'a str, enabled: bool, now: u128) -> (r: Option<Self>)
        ensures
            r == (if enabled {
                Some(TimingLog { display_path, start: now, last: now })
            } else {
                None
            }),
    {
        if enabled {
            Some(TimingLog { display_path, start: now, last: now })
        } else {
            None
        }
    }

    /// Ends a phase and gives its entry. The next phase begins here.
    pub fn mark<'b>(&mut self, phase: &'b str, now: u128) -> (r: TimingEntry<'a, 'b>)
        ensures
            r == old(self).entry(phase, now),
            *final(self) == (TimingLog { last: now, ..*old(self) }),
    {
        let entry = TimingEntry {
            display_path: self.display_path,
            phase,
            elapsed: now.saturating_sub(self.last),
            total: now.saturating_sub(self.start),
        };
        self.last = now;
        entry
    }
}

/// Ends a phase in a log that may be turned off: a log that is off stays off and
/// gives no entry.
pub fn mark_timing<'a, 'b>(
    timing: &mut Option<&mut TimingLog<'a>>,
    phase: &'b str,
    now: u128,
) -> (r: Option<TimingEntry<'a, 'b>>)
    ensures
        match *old(timing) {
            Some(log) => {
                &&& r == Some(log.entry(phase, now))
                &&& *final(timing) matches Some(marked)
                &&& *marked == (TimingLog { last: now, ..*log })
                &&& *final(marked) == *final(log)
            },
            None => r is None && *final(timing) is None,
        },
{
    match timing {
        Some(log) => Some(log.mark(phase, now)),
        None => None,
    }
}

/// The total of an entry is the time spent in all phases up to it, as long as
/// the clock does not run backwards: two phases in a row take together as long
/// as they take one by one.
pub proof fn law_phases_add_up<'a, 'b>(
    log: TimingLog<'a>,
    first: &'b str,
    second: &'b str,
    middle: u128,
    end: u128,
)
    requires
        log.start <= log.last <= middle <= end,
    ensures
        ({
            let one = log.entry(first, middle);
            let two = (TimingLog { last: middle, ..log }).entry(second, end);
            &&& two.total == one.total + two.elapsed
            &&& one.elapsed + two.elapsed == time_since(log.last, end)
        }),
{
}

/// An entry tells the time since the mark before and since the log began, and
/// none where the clock ran backwards.
pub proof fn law_entry_times<'a, 'b>(log: TimingLog<'a>, phase: &'b str, now: u128)
    ensures
        ({
            let entry = log.entry(phase, now);
            &&& entry.display_path == log.display_path
            &&& entry.phase == phase
            &&& log.last <= now ==> entry.elapsed + log.last == now
            &&& log.last > now ==> entry.elapsed == 0
            &&& log.start <= now ==> entry.total + log.start == now
            &&& log.start > now ==> entry.total == 0
        }),
{
}

} // verus!
