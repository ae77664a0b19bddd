//! What holds of every session: the invariant that all events keep, how the
//! log follows the events, and that deleting undoes typing behind a sliding
//! window.

use crate::config::Mode;
use crate::input::is_correct_prefix;
use crate::session::{
    config_error, policy_for, recorded, DecodedEvent, PolicyModel, Session, SessionState,
};
use crate::stats::EntryType;
use vstd::prelude::*;

verus! {

impl Session {
    /// The invariant of a session.
    ///
    /// Between events no session is advancing, and an active or completed
    /// one has a policy. The input is never longer than the visible text.
    /// With a queue of lines nothing is out of sight, and the input of an
    /// active session is shorter than its line, unless the line is empty.
    /// Behind a sliding window, the window lies within the text, its offset
    /// is the number of characters out of sight, and the threshold is less
    /// than the width; while the session is active, the input is at most one
    /// longer than the threshold, exactly that if anything is out of sight,
    /// and shorter than the visible text once the window is at the end.
    pub open spec fn wf(self) -> bool {
        &&& self.state != SessionState::Advancing
        &&& self.state == SessionState::Active || self.state == SessionState::Completed
            ==> self.policy is Some
        &&& self.input.len() <= self.target().len()
        &&& match self.policy {
            Some(PolicyModel::Chunk { current, .. }) => {
                &&& self.hidden.len() == 0
                &&& self.state == SessionState::Active ==> self.input.len() < current.len()
                    || current.len() == 0
            },
            Some(PolicyModel::Scroll { window, threshold }) => {
                &&& window.wf()
                &&& threshold < window.width
                &&& window.offset == self.hidden.len()
                &&& self.state == SessionState::Active ==> {
                    &&& self.input.len() <= threshold + 1
                    &&& self.hidden.len() > 0 ==> self.input.len() == threshold + 1
                    &&& window.at_end() ==> self.input.len() < window.visible().len()
                }
            },
            None => self.hidden.len() == 0,
        }
    }

    /// Whether two sessions stand at the same place of the same text, with
    /// the same input in and out of sight; the logs and the last events may
    /// differ.
    pub open spec fn same_place(self, other: Session) -> bool {
        &&& self.state == other.state
        &&& self.dimensions == other.dimensions
        &&& self.policy == other.policy
        &&& self.input == other.input
        &&& self.hidden == other.hidden
        &&& self.home == other.home
    }
}

/// Whether every event of the run is a typed character.
pub open spec fn all_typed(events: Seq<DecodedEvent>) -> bool {
    forall|i: int| 0 <= i < events.len() ==> (#[trigger] events[i]) is CharTyped
}

/// The events of `count` deletions.
pub open spec fn erasing(count: nat) -> Seq<DecodedEvent> {
    Seq::new(count, |i: int| DecodedEvent::Backspace)
}

/// A session that has not been loaded keeps the invariant.
pub proof fn lemma_loading_is_wf(dimensions: (u16, u16))
    ensures
        Session::loading(dimensions).wf(),
{
}

/// A session that starts on a queue of lines keeps the invariant, whatever
/// the lines are; it is completed at once exactly if there are none.
pub proof fn lemma_started_on_queue_is_wf(s: Session, queue: Seq<Seq<char>>)
    ensures
        s.started(PolicyModel::Chunk { current: Seq::empty(), queue }).wf(),
        s.started(PolicyModel::Chunk { current: Seq::empty(), queue }).state == (if queue.len()
            == 0 {
            SessionState::Completed
        } else {
            SessionState::Active
        }),
{
}

/// A session starts with nothing typed, with its log as it was and with no
/// event before its first one, whatever the policy.
pub proof fn lemma_started_has_no_event(s: Session, policy: PolicyModel)
    ensures
        s.started(policy).last_event is None,
        s.started(policy).log == s.log,
        s.started(policy).input.len() == 0,
        s.started(policy).hidden.len() == 0,
{
}

/// A session that starts on a well-formed configuration keeps the
/// invariant.
pub proof fn lemma_started_is_wf(s: Session, words: Seq<Seq<char>>, mode: Mode)
    requires
        config_error(SessionState::Loading, words, mode) is None,
    ensures
        s.started(policy_for(words, mode)).wf(),
{
}

/// Every event keeps the invariant.
pub proof fn lemma_step_preserves_wf(s: Session, event: DecodedEvent)
    requires
        s.wf(),
    ensures
        s.step(event).wf(),
{
}

/// Every run of events keeps the invariant: after any sequence of events
/// the offset of a sliding window lies within its bounds and the input is
/// no longer than the visible text.
pub proof fn lemma_run_preserves_wf(s: Session, events: Seq<DecodedEvent>)
    requires
        s.wf(),
    ensures
        s.run(events).wf(),
    decreases events.len(),
{
    if events.len() > 0 {
        lemma_run_preserves_wf(s, events.drop_last());
        lemma_step_preserves_wf(s.run(events.drop_last()), events.last());
    }
}

/// What an event adds to the log of the session it arrives at: nothing,
/// unless it is a character typed into a session that takes keys; then what
/// the kind of the event before it calls for.
pub open spec fn logged_by(before: Session, event: DecodedEvent) -> Seq<EntryType> {
    match event {
        DecodedEvent::CharTyped(c) => if before.accepts_keys() {
            recorded(
                before.last_event,
                event,
                is_correct_prefix(before.target(), before.input.push(c)),
            )
        } else {
            Seq::empty()
        },
        _ => Seq::empty(),
    }
}

/// One event adds to the log what the kind of the event before it calls
/// for, takes nothing from the log, and becomes the last event itself.
///
/// A character typed into a session that takes keys adds an entry if the
/// event before it was a character, and a mistake after the entry if the
/// input with the new character is no correct prefix of the target; it adds
/// a corrected mistake if the event before it was a deletion. Nothing is
/// added by a character after any other event or after none, by any other
/// event, or in a session that takes no keys.
pub proof fn lemma_step_logs_by_previous_event(s: Session, event: DecodedEvent)
    ensures
        s.step(event).log == s.log + logged_by(s, event),
        s.step(event).last_event == Some(event),
        s.accepts_keys() && event is CharTyped && s.last_event is Some
            && s.last_event->Some_0 is CharTyped ==> s.step(event).log == (if is_correct_prefix(
            s.target(),
            s.input.push(event->CharTyped_0),
        ) {
            s.log.push(EntryType::Entry)
        } else {
            s.log.push(EntryType::Entry).push(EntryType::Mistake)
        }),
        s.accepts_keys() && event is CharTyped && s.last_event == Some(DecodedEvent::Backspace)
            ==> s.step(event).log == s.log.push(EntryType::CorrectedMistake),
        !(s.last_event is Some && (s.last_event->Some_0 is CharTyped || s.last_event->Some_0
            is Backspace)) ==> s.step(event).log == s.log,
        !(event is CharTyped) || !s.accepts_keys() ==> s.step(event).log == s.log,
{
    assert(s.log + Seq::<EntryType>::empty() =~= s.log);
    assert(s.log + seq![EntryType::Entry] =~= s.log.push(EntryType::Entry));
    assert(s.log + seq![EntryType::Entry, EntryType::Mistake] =~= s.log.push(
        EntryType::Entry,
    ).push(EntryType::Mistake));
    assert(s.log + seq![EntryType::CorrectedMistake] =~= s.log.push(
        EntryType::CorrectedMistake,
    ));
}

/// In every run of events, the event before event `i` is the one that the
/// session remembers when event `i` arrives, and event `i` is logged by the
/// kind of that event. The first event of a session that starts with no
/// event before it adds nothing to the log.
pub proof fn lemma_run_logs_by_previous_event(s: Session, events: Seq<DecodedEvent>, i: int)
    requires
        0 <= i < events.len(),
    ensures
        s.run(events.take(i)).last_event == (if i == 0 {
            s.last_event
        } else {
            Some(events[i - 1])
        }),
        s.run(events.take(i + 1)).log == s.run(events.take(i)).log + logged_by(
            s.run(events.take(i)),
            events[i],
        ),
        i == 0 && s.last_event is None ==> s.run(events.take(1)).log == s.log,
{
    let upto = events.take(i + 1);
    assert(upto.drop_last() =~= events.take(i));
    assert(upto.last() == events[i]);
    lemma_step_logs_by_previous_event(s.run(events.take(i)), events[i]);
    if i > 0 {
        let before = events.take(i);
        assert(before.last() == events[i - 1]);
        lemma_step_logs_by_previous_event(s.run(before.drop_last()), before.last());
    } else {
        assert(events.take(0) =~= Seq::<DecodedEvent>::empty());
        lemma_step_logs_by_previous_event(s, events[0]);
    }
}

/// A run of events is the run of its first event followed by the run of
/// the rest.
pub proof fn lemma_run_from_the_front(s: Session, events: Seq<DecodedEvent>)
    requires
        events.len() > 0,
    ensures
        s.run(events) == s.step(events[0]).run(events.drop_first()),
    decreases events.len(),
{
    let rest = events.drop_first();
    if events.len() == 1 {
        assert(events.drop_last() =~= Seq::<DecodedEvent>::empty());
        assert(s.run(events.drop_last()) == s);
        assert(s.step(events[0]).run(rest) == s.step(events[0]));
    } else {
        lemma_run_from_the_front(s, events.drop_last());
        assert(events.drop_last().drop_first() =~= rest.drop_last());
        assert(rest.last() == events.last());
        assert(s.step(events[0]).run(rest) == s.step(events[0]).run(rest.drop_last()).step(
            rest.last(),
        ));
    }
}

/// Behind a sliding window, a character typed into a session that stays
/// active is appended to what has been typed, in and out of sight together,
/// and a deletion takes the last character off it.
pub proof fn lemma_typed_history(s: Session, c: char)
    requires
        s.wf(),
        s.accepts_keys(),
        s.policy->Some_0 is Scroll,
    ensures
        s.step(DecodedEvent::CharTyped(c)).state == SessionState::Active ==> s.step(
            DecodedEvent::CharTyped(c),
        ).typed_history() == s.typed_history().push(c),
        s.input.len() > 0 ==> s.step(DecodedEvent::Backspace).typed_history()
            == s.typed_history().drop_last(),
        s.input.len() == 0 ==> s.step(DecodedEvent::Backspace).typed_history()
            == s.typed_history(),
{
    let t = s.step(DecodedEvent::CharTyped(c));
    if t.state == SessionState::Active {
        assert(t.typed_history() =~= s.typed_history().push(c));
    }
    let u = s.step(DecodedEvent::Backspace);
    if s.input.len() > 0 {
        assert(u.typed_history() =~= s.typed_history().drop_last());
    }
}

/// Behind a sliding window, a deletion undoes a character typed into a
/// session that stays active: the offset, the input and what is out of
/// sight are as before.
pub proof fn lemma_delete_undoes_typed(s: Session, c: char)
    requires
        s.wf(),
        s.accepts_keys(),
        s.policy->Some_0 is Scroll,
        s.step(DecodedEvent::CharTyped(c)).state == SessionState::Active,
    ensures
        s.step(DecodedEvent::CharTyped(c)).step(DecodedEvent::Backspace).same_place(s),
{
    let t = s.step(DecodedEvent::CharTyped(c));
    let u = t.step(DecodedEvent::Backspace);
    assert(u.input =~= s.input);
    assert(u.hidden =~= s.hidden);
}

/// Deletions take sessions that stand at the same place to the same place.
pub proof fn lemma_erasing_from_same_place(a: Session, b: Session, count: nat)
    requires
        a.same_place(b),
    ensures
        a.run(erasing(count)).same_place(b.run(erasing(count))),
    decreases count,
{
    if count > 0 {
        assert(erasing(count).len() == count);
        assert(erasing(count).drop_last() =~= erasing((count - 1) as nat));
        lemma_erasing_from_same_place(a, b, (count - 1) as nat);
    } else {
        assert(erasing(count).len() == 0);
    }
}

/// Typing cannot bring a session back to the active state: if a session is
/// active after a run of typed characters, it was active all along, and it
/// still uses the sliding window it began with.
pub proof fn lemma_typing_stays_active(s: Session, typed: Seq<DecodedEvent>)
    requires
        s.accepts_keys(),
        s.policy->Some_0 is Scroll,
        all_typed(typed),
        s.run(typed).state == SessionState::Active,
    ensures
        typed.len() > 0 ==> s.run(typed.drop_last()).state == SessionState::Active,
        s.run(typed).accepts_keys(),
        s.run(typed).policy->Some_0 is Scroll,
{
    if typed.len() > 0 {
        assert(typed.last() is CharTyped);
        lemma_typing_keeps_policy(s, typed.drop_last());
    }
}

/// Typing leaves a session with a sliding window a session with a sliding
/// window.
proof fn lemma_typing_keeps_policy(s: Session, typed: Seq<DecodedEvent>)
    requires
        s.policy is Some,
        s.policy->Some_0 is Scroll,
        all_typed(typed),
    ensures
        s.run(typed).policy is Some,
        s.run(typed).policy->Some_0 is Scroll,
    decreases typed.len(),
{
    if typed.len() > 0 {
        assert(typed.last() is CharTyped);
        lemma_typing_keeps_policy(s, typed.drop_last());
    }
}

/// Round trip behind a sliding window: if a run of typed characters leaves
/// the session active, however many forward shifts it has caused, then as
/// many deletions bring the offset back to what it was, the input back to
/// what it was, and what is out of sight back to what it was.
pub proof fn lemma_typing_then_erasing_round_trip(s: Session, typed: Seq<DecodedEvent>)
    requires
        s.wf(),
        s.accepts_keys(),
        s.policy->Some_0 is Scroll,
        all_typed(typed),
        s.run(typed).state == SessionState::Active,
    ensures
        s.run(typed).run(erasing(typed.len())).same_place(s),
    decreases typed.len(),
{
    if typed.len() > 0 {
        let shorter = typed.drop_last();
        assert(typed.last() is CharTyped);
        let c = typed.last()->CharTyped_0;
        let mid = s.run(shorter);
        let t = s.run(typed);
        lemma_typing_stays_active(s, typed);
        lemma_typing_stays_active(s, shorter);
        lemma_run_preserves_wf(s, shorter);
        lemma_delete_undoes_typed(mid, c);
        let deletions = erasing(typed.len());
        lemma_run_from_the_front(t, deletions);
        assert(deletions.drop_first() =~= erasing(shorter.len()));
        lemma_erasing_from_same_place(t.step(DecodedEvent::Backspace), mid, shorter.len());
        lemma_typing_then_erasing_round_trip(s, shorter);
    } else {
        assert(erasing(0).len() == 0);
    }
}

} // verus!
