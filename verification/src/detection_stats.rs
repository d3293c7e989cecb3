//! Local counters of meeting detection: how often it prompted, and how often it
//! was right.
use vstd::prelude::*;

verus! {

/// The counters.
#[derive(Debug, Clone, Copy, PartialEq, Eq, Structural)]
pub struct DetectionStatsCounters {
    /// A "looks like a meeting — record?" prompt was shown.
    pub prompt_shown: u64,
    /// The user accepted a prompt (a recording started).
    pub prompt_accepted: u64,
    /// The user dismissed a prompt.
    pub prompt_dismissed: u64,
    /// A "meeting seems over — stop?" suggestion was shown.
    pub stop_suggested: u64,
    /// The user accepted a stop suggestion (recording stopped).
    pub stop_accepted: u64,
    /// The user declined a stop suggestion (kept recording).
    pub stop_declined: u64,
}

impl Default for DetectionStatsCounters {
    fn default() -> (r: Self)
        ensures
            forall|counter: StatCounter| #[trigger] r.count(counter) == 0,
    {
        DetectionStatsCounters {
            prompt_shown: 0,
            prompt_accepted: 0,
            prompt_dismissed: 0,
            stop_suggested: 0,
            stop_accepted: 0,
            stop_declined: 0,
        }
    }
}

/// Which counter to bump.
#[derive(Debug, Clone, Copy, PartialEq, Eq, Structural)]
pub enum StatCounter {
    PromptShown,
    PromptAccepted,
    PromptDismissed,
    StopSuggested,
    StopAccepted,
    StopDeclined,
}

impl StatCounter {
    pub open spec fn spelled(self) -> Seq<char> {
        match self {
            StatCounter::PromptShown => "prompt_shown"@,
            StatCounter::PromptAccepted => "prompt_accepted"@,
            StatCounter::PromptDismissed => "prompt_dismissed"@,
            StatCounter::StopSuggested => "stop_suggested"@,
            StatCounter::StopAccepted => "stop_accepted"@,
            StatCounter::StopDeclined => "stop_declined"@,
        }
    }

    /// The name of a counter.
    pub fn name(self) -> (r: &'static str)
        ensures
            r@ == self.spelled(),
    {
        match self {
            StatCounter::PromptShown => "prompt_shown",
            StatCounter::PromptAccepted => "prompt_accepted",
            StatCounter::PromptDismissed => "prompt_dismissed",
            StatCounter::StopSuggested => "stop_suggested",
            StatCounter::StopAccepted => "stop_accepted",
            StatCounter::StopDeclined => "stop_declined",
        }
    }
}

impl DetectionStatsCounters {
    /// The count of a counter.
    pub open spec fn count(self, counter: StatCounter) -> u64 {
        match counter {
            StatCounter::PromptShown => self.prompt_shown,
            StatCounter::PromptAccepted => self.prompt_accepted,
            StatCounter::PromptDismissed => self.prompt_dismissed,
            StatCounter::StopSuggested => self.stop_suggested,
            StatCounter::StopAccepted => self.stop_accepted,
            StatCounter::StopDeclined => self.stop_declined,
        }
    }
}

/// One more, as far as a counter goes.
pub open spec fn bumped(count: u64) -> u64 {
    if count == u64::MAX {
        u64::MAX
    } else {
        (count + 1) as u64
    }
}

fn bump(count: u64) -> (r: u64)
    ensures
        r == bumped(count),
{
    if count == u64::MAX {
        u64::MAX
    } else {
        count + 1
    }
}

/// The counters of one store.
#[derive(Debug, Clone, Copy, PartialEq, Eq)]
pub struct DetectionStats {
    pub counters: DetectionStatsCounters,
}

impl DetectionStats {
    /// The counts that were stored; zeroes where they could not be read.
    pub fn load(stored: Option<DetectionStatsCounters>) -> (r: Self)
        ensures
            match stored {
                Some(counters) => r.counters == counters,
                None => forall|counter: StatCounter| #[trigger] r.counters.count(counter) == 0,
            },
    {
        match stored {
            Some(counters) => DetectionStats { counters },
            None => DetectionStats { counters: DetectionStatsCounters::default() },
        }
    }

    /// Bump one counter: the counts that are to be stored.
    pub fn increment(&mut self, counter: StatCounter) -> (r: DetectionStatsCounters)
        ensures
            r == final(self).counters,
            forall|other: StatCounter| #[trigger]
                final(self).counters.count(other) == if other == counter {
                    bumped(old(self).counters.count(other))
                } else {
                    old(self).counters.count(other)
                },
    {
        match counter {
            StatCounter::PromptShown => {
                self.counters.prompt_shown = bump(self.counters.prompt_shown);
            },
            StatCounter::PromptAccepted => {
                self.counters.prompt_accepted = bump(self.counters.prompt_accepted);
            },
            StatCounter::PromptDismissed => {
                self.counters.prompt_dismissed = bump(self.counters.prompt_dismissed);
            },
            StatCounter::StopSuggested => {
                self.counters.stop_suggested = bump(self.counters.stop_suggested);
            },
            StatCounter::StopAccepted => {
                self.counters.stop_accepted = bump(self.counters.stop_accepted);
            },
            StatCounter::StopDeclined => {
                self.counters.stop_declined = bump(self.counters.stop_declined);
            },
        }
        self.counters
    }

    /// Current counts.
    pub fn snapshot(&self) -> (r: DetectionStatsCounters)
        ensures
            r == self.counters,
    {
        self.counters
    }
}

// ---------------------------------------------------------------------------
// Laws of the counts
// ---------------------------------------------------------------------------

/// A counter goes up by one, and stays where it can go no further.
pub proof fn counter_goes_up_by_one(count: u64)
    ensures
        count < u64::MAX ==> bumped(count) == count + 1,
        bumped(u64::MAX) == u64::MAX,
        bumped(count) >= count,
{
}

/// Each counter has a name of its own and counts its own events.
pub proof fn counters_are_told_apart(a: StatCounter, b: StatCounter, counts: DetectionStatsCounters)
    ensures
        a.spelled() == b.spelled() ==> a == b,
        counts.count(StatCounter::PromptShown) == counts.prompt_shown,
        counts.count(StatCounter::PromptAccepted) == counts.prompt_accepted,
        counts.count(StatCounter::PromptDismissed) == counts.prompt_dismissed,
        counts.count(StatCounter::StopSuggested) == counts.stop_suggested,
        counts.count(StatCounter::StopAccepted) == counts.stop_accepted,
        counts.count(StatCounter::StopDeclined) == counts.stop_declined,
        StatCounter::PromptShown.spelled() == "prompt_shown"@,
        StatCounter::PromptAccepted.spelled() == "prompt_accepted"@,
        StatCounter::PromptDismissed.spelled() == "prompt_dismissed"@,
        StatCounter::StopSuggested.spelled() == "stop_suggested"@,
        StatCounter::StopAccepted.spelled() == "stop_accepted"@,
        StatCounter::StopDeclined.spelled() == "stop_declined"@,
{
    reveal_strlit("prompt_shown");
    reveal_strlit("prompt_accepted");
    reveal_strlit("prompt_dismissed");
    reveal_strlit("stop_suggested");
    reveal_strlit("stop_accepted");
    reveal_strlit("stop_declined");
    assert("prompt_shown"@.len() == 12 && "prompt_shown"@[0] == 'p' && "prompt_shown"@[1] == 'r'
        && "prompt_shown"@[2] == 'o' && "prompt_shown"@[3] == 'm' && "prompt_shown"@[4] == 'p'
        && "prompt_shown"@[5] == 't' && "prompt_shown"@[6] == '_' && "prompt_shown"@[7] == 's'
        && "prompt_shown"@[8] == 'h' && "prompt_shown"@[9] == 'o' && "prompt_shown"@[10] == 'w'
        && "prompt_shown"@[11] == 'n');
    assert("prompt_accepted"@.len() == 15 && "prompt_accepted"@[0] == 'p'
        && "prompt_accepted"@[1] == 'r' && "prompt_accepted"@[2] == 'o'
        && "prompt_accepted"@[3] == 'm' && "prompt_accepted"@[4] == 'p'
        && "prompt_accepted"@[5] == 't' && "prompt_accepted"@[6] == '_'
        && "prompt_accepted"@[7] == 'a' && "prompt_accepted"@[8] == 'c'
        && "prompt_accepted"@[9] == 'c' && "prompt_accepted"@[10] == 'e'
        && "prompt_accepted"@[11] == 'p' && "prompt_accepted"@[12] == 't'
        && "prompt_accepted"@[13] == 'e' && "prompt_accepted"@[14] == 'd');
    assert("prompt_dismissed"@.len() == 16 && "prompt_dismissed"@[0] == 'p'
        && "prompt_dismissed"@[1] == 'r' && "prompt_dismissed"@[2] == 'o'
        && "prompt_dismissed"@[3] == 'm' && "prompt_dismissed"@[4] == 'p'
        && "prompt_dismissed"@[5] == 't' && "prompt_dismissed"@[6] == '_'
        && "prompt_dismissed"@[7] == 'd' && "prompt_dismissed"@[8] == 'i'
        && "prompt_dismissed"@[9] == 's' && "prompt_dismissed"@[10] == 'm'
        && "prompt_dismissed"@[11] == 'i' && "prompt_dismissed"@[12] == 's'
        && "prompt_dismissed"@[13] == 's' && "prompt_dismissed"@[14] == 'e'
        && "prompt_dismissed"@[15] == 'd');
    assert("stop_suggested"@.len() == 14 && "stop_suggested"@[0] == 's'
        && "stop_suggested"@[1] == 't' && "stop_suggested"@[2] == 'o'
        && "stop_suggested"@[3] == 'p' && "stop_suggested"@[4] == '_'
        && "stop_suggested"@[5] == 's' && "stop_suggested"@[6] == 'u'
        && "stop_suggested"@[7] == 'g' && "stop_suggested"@[8] == 'g'
        && "stop_suggested"@[9] == 'e' && "stop_suggested"@[10] == 's'
        && "stop_suggested"@[11] == 't' && "stop_suggested"@[12] == 'e'
        && "stop_suggested"@[13] == 'd');
    assert("stop_accepted"@.len() == 13 && "stop_accepted"@[0] == 's'
        && "stop_accepted"@[1] == 't' && "stop_accepted"@[2] == 'o' && "stop_accepted"@[3] == 'p'
        && "stop_accepted"@[4] == '_' && "stop_accepted"@[5] == 'a' && "stop_accepted"@[6] == 'c'
        && "stop_accepted"@[7] == 'c' && "stop_accepted"@[8] == 'e' && "stop_accepted"@[9] == 'p'
        && "stop_accepted"@[10] == 't' && "stop_accepted"@[11] == 'e'
        && "stop_accepted"@[12] == 'd');
    assert("stop_declined"@.len() == 13 && "stop_declined"@[0] == 's'
        && "stop_declined"@[1] == 't' && "stop_declined"@[2] == 'o' && "stop_declined"@[3] == 'p'
        && "stop_declined"@[4] == '_' && "stop_declined"@[5] == 'd' && "stop_declined"@[6] == 'e'
        && "stop_declined"@[7] == 'c' && "stop_declined"@[8] == 'l' && "stop_declined"@[9] == 'i'
        && "stop_declined"@[10] == 'n' && "stop_declined"@[11] == 'e'
        && "stop_declined"@[12] == 'd');
}

} // verus!
