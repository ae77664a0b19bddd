//! The statistics of a session: an append-only log of events, the time the
//! session began, and the speed and accuracy figures derived from them.

use crate::ui::Section;
use std::time::{Duration, Instant};
use vstd::prelude::*;

verus! {

/// A point in time of the standard library's monotonic clock.
#[verifier::external_type_specification]
#[verifier::external_body]
pub struct ExInstant(std::time::Instant);

/// `Instant::now` of the standard library reads the clock: nothing is
/// claimed of the point in time that it returns.
pub assume_specification[ Instant::now ]() -> (now: Instant)
;

/// `Instant::elapsed` of the standard library gives the time that has passed
/// since the instant: nothing is claimed of its amount.
pub assume_specification[ Instant::elapsed ](start: &Instant) -> (elapsed: Duration)
;

/// `Duration::as_secs` of the standard library gives the whole seconds of a
/// duration: nothing is claimed of their number.
pub assume_specification[ Duration::as_secs ](duration: &Duration) -> (secs: u64)
;

/// What the controller writes into the log.
#[derive(Clone, Copy, Debug, PartialEq, Eq, Structural)]
pub enum EntryType {
    /// A character was typed after another character.
    Entry,
    /// The input, with the character just typed, was no correct prefix of
    /// the target.
    Mistake,
    /// A character was typed right after a deletion.
    CorrectedMistake,
}

/// How many events of kind `kind` the log holds.
pub open spec fn count_of(log: Seq<EntryType>, kind: EntryType) -> nat
    decreases log.len(),
{
    if log.len() == 0 {
        0
    } else {
        count_of(log.drop_last(), kind) + if log.last() == kind {
            1nat
        } else {
            0nat
        }
    }
}

/// The whole minutes in a number of seconds.
pub open spec fn whole_minutes(secs: u64) -> u64 {
    secs / 60
}

/// Whether speed and accuracy can be given: some time has passed and
/// something has been entered.
pub open spec fn metrics_available(entries: nat, minutes: nat) -> bool {
    minutes != 0 && entries != 0
}

/// The quotient of `a` by a positive `b`, rounded towards zero.
pub open spec fn quotient(a: int, b: int) -> int
    recommends
        b > 0,
{
    if a >= 0 {
        a / b
    } else {
        -((-a) / b)
    }
}

/// Raw words per minute: five entries make a word.
pub open spec fn raw_wpm_of(entries: nat, minutes: nat) -> Option<int> {
    if metrics_available(entries, minutes) {
        Some((entries / 5) as int / minutes as int)
    } else {
        None
    }
}

/// Net words per minute: the raw figure less the uncorrected mistakes per
/// minute.
pub open spec fn net_wpm_of(entries: nat, mistakes: nat, minutes: nat) -> Option<int> {
    if metrics_available(entries, minutes) {
        Some((entries / 5) as int / minutes as int - mistakes as int / minutes as int)
    } else {
        None
    }
}

/// Accuracy: the entries that were no mistake, corrected or not, as a share
/// of all entries, in whole numbers.
pub open spec fn accuracy_of(entries: nat, mistakes: nat, corrected: nat, minutes: nat) -> Option<
    int,
> {
    if metrics_available(entries, minutes) {
        Some(quotient(entries - (mistakes + corrected), entries as int))
    } else {
        None
    }
}

/// Before the first whole minute has passed no figure is available, however
/// much has been entered; nor is one available while nothing has been
/// entered, however much time has passed.
pub proof fn lemma_metrics_need_time_and_entries(
    entries: nat,
    mistakes: nat,
    corrected: nat,
    minutes: nat,
)
    ensures
        minutes == 0 || entries == 0 ==> {
            &&& raw_wpm_of(entries, minutes) is None
            &&& net_wpm_of(entries, mistakes, minutes) is None
            &&& accuracy_of(entries, mistakes, corrected, minutes) is None
        },
        minutes != 0 && entries != 0 ==> {
            &&& raw_wpm_of(entries, minutes) is Some
            &&& net_wpm_of(entries, mistakes, minutes) is Some
            &&& accuracy_of(entries, mistakes, corrected, minutes) is Some
        },
{
}

/// The counts of a log and the minutes that have passed.
#[derive(Clone, Copy, Debug, PartialEq, Eq, Structural)]
pub struct StatsSnapshot {
    pub entries: usize,
    pub mistakes: usize,
    pub corrected_mistakes: usize,
    pub minutes: u64,
}

/// The log of a session and the time it began.
#[derive(Debug)]
pub struct Stats {
    pub section: Section,
    start_time: Instant,
    entries: Vec<EntryType>,
}

impl View for Stats {
    type V = Seq<EntryType>;

    closed spec fn view(&self) -> Seq<EntryType> {
        self.entries@
    }
}

impl Default for Stats {
    /// An empty log that begins now.
    fn default() -> (stats: Stats)
        ensures
            stats@ == Seq::<EntryType>::empty(),
            stats.region() == (Section { x: 0, y: 0 }),
    {
        Stats { section: Section::default(), start_time: Instant::now(), entries: Vec::new() }
    }
}

/// The whole minutes in a number of seconds.
pub fn minutes_of(secs: u64) -> (minutes: u64)
    ensures
        minutes == whole_minutes(secs),
{
    secs / 60
}

impl Stats {
    /// Where on the screen the statistics are placed.
    pub closed spec fn region(&self) -> Section {
        self.section
    }

    /// Appends one event to the log.
    pub fn record(&mut self, event: EntryType)
        ensures
            final(self)@ == old(self)@.push(event),
            final(self).region() == old(self).region(),
    {
        self.entries.push(event);
    }

    /// The events of the log, oldest first.
    pub fn entries(&self) -> (log: &Vec<EntryType>)
        ensures
            log@ == self@,
    {
        &self.entries
    }

    /// How many events of kind `kind` the log holds.
    pub fn count(&self, kind: EntryType) -> (n: usize)
        ensures
            n == count_of(self@, kind),
    {
        let mut n: usize = 0;
        let mut i: usize = 0;
        while i < self.entries.len()
            invariant
                i <= self.entries@.len(),
                n == count_of(self.entries@.subrange(0, i as int), kind),
                n <= i,
            decreases self.entries@.len() - i,
        {
            proof {
                let next = self.entries@.subrange(0, i + 1);
                assert(next.drop_last() =~= self.entries@.subrange(0, i as int));
            }
            if self.entries[i] == kind {
                n += 1;
            }
            i += 1;
        }
        assert(self.entries@.subrange(0, i as int) =~= self.entries@);
        n
    }

    /// The whole minutes that have passed since the session began, by the
    /// clock.
    pub fn minutes(&self) -> (minutes: u64)
        ensures
            exists|secs: u64| minutes == whole_minutes(secs),
    {
        let secs: u64 = self.start_time.elapsed().as_secs();
        let minutes = minutes_of(secs);
        assert(minutes == whole_minutes(secs));
        minutes
    }

    /// Raw words per minute after `minutes` minutes, where it can be given.
    pub fn raw_wpm(&self, minutes: u64) -> (wpm: Option<u64>)
        ensures
            wpm is Some <==> metrics_available(count_of(self@, EntryType::Entry), minutes as nat),
            wpm is Some ==> Some(wpm->Some_0 as int) == raw_wpm_of(
                count_of(self@, EntryType::Entry),
                minutes as nat,
            ),
    {
        let entries = self.count(EntryType::Entry) as u64;
        if minutes == 0 || entries == 0 {
            None
        } else {
            Some((entries / 5) / minutes)
        }
    }

    /// Net words per minute after `minutes` minutes, where it can be given.
    pub fn net_wpm(&self, minutes: u64) -> (wpm: Option<i128>)
        ensures
            wpm is Some <==> metrics_available(count_of(self@, EntryType::Entry), minutes as nat),
            wpm is Some ==> Some(wpm->Some_0 as int) == net_wpm_of(
                count_of(self@, EntryType::Entry),
                count_of(self@, EntryType::Mistake),
                minutes as nat,
            ),
    {
        let entries = self.count(EntryType::Entry) as u64;
        let mistakes = self.count(EntryType::Mistake) as u64;
        if minutes == 0 || entries == 0 {
            None
        } else {
            let raw: u64 = (entries / 5) / minutes;
            let lost: u64 = mistakes / minutes;
            Some(raw as i128 - lost as i128)
        }
    }

    /// Accuracy after `minutes` minutes, where it can be given.
    pub fn accuracy(&self, minutes: u64) -> (accuracy: Option<i128>)
        ensures
            accuracy is Some <==> metrics_available(
                count_of(self@, EntryType::Entry),
                minutes as nat,
            ),
            accuracy is Some ==> Some(accuracy->Some_0 as int) == accuracy_of(
                count_of(self@, EntryType::Entry),
                count_of(self@, EntryType::Mistake),
                count_of(self@, EntryType::CorrectedMistake),
                minutes as nat,
            ),
    {
        let entries = self.count(EntryType::Entry) as u128;
        let mistakes = self.count(EntryType::Mistake) as u128;
        let corrected = self.count(EntryType::CorrectedMistake) as u128;
        if minutes == 0 || entries == 0 {
            None
        } else {
            let wrong: u128 = mistakes + corrected;
            if entries >= wrong {
                Some(((entries - wrong) / entries) as i128)
            } else {
                let below: u128 = (wrong - entries) / entries;
                Some(0 - (below as i128))
            }
        }
    }

    /// The counts of the log, and the minutes that have passed by the clock.
    pub fn snapshot(&self) -> (snapshot: StatsSnapshot)
        ensures
            snapshot.entries == count_of(self@, EntryType::Entry),
            snapshot.mistakes == count_of(self@, EntryType::Mistake),
            snapshot.corrected_mistakes == count_of(self@, EntryType::CorrectedMistake),
            exists|secs: u64| snapshot.minutes == whole_minutes(secs),
    {
        let minutes = self.minutes();
        StatsSnapshot {
            entries: self.count(EntryType::Entry),
            mistakes: self.count(EntryType::Mistake),
            corrected_mistakes: self.count(EntryType::CorrectedMistake),
            minutes,
        }
    }
}

} // verus!
