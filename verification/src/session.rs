//! The practice session as a state machine: what a session is, and what one
//! decoded event makes of it.

use crate::config::{ConfigError, Mode};
use crate::input::is_correct_prefix;
use crate::prompt::Window;
use crate::stats::EntryType;
use crate::text::join;
use crate::words::{chunked, wrapped};
use vstd::prelude::*;

verus! {

/// An input event, decoded by the host.
#[derive(Clone, Copy, Debug, PartialEq, Eq, Structural)]
pub enum DecodedEvent {
    /// A character was typed.
    CharTyped(char),
    /// The last character is to be deleted.
    Backspace,
    /// The viewport has the given width and height now.
    Resize(u16, u16),
    /// The user ends the session.
    Cancel,
}

/// Where a session stands.
#[derive(Clone, Copy, Debug, PartialEq, Eq, Structural)]
pub enum SessionState {
    /// No text has been prepared yet.
    Loading,
    /// Characters are being typed.
    Active,
    /// The current line is full and the next one is being asked for: a
    /// session is in this state only within the handling of one event.
    Advancing,
    /// The text has run out.
    Completed,
    /// The user has ended the session.
    Cancelled,
}

/// Which of the two windowing policies a session uses.
#[derive(Clone, Copy, Debug, PartialEq, Eq, Structural)]
pub enum PolicyKind {
    /// A queue of lines, typed one after the other.
    Chunk,
    /// One text behind a sliding window.
    Scroll,
}

/// A windowing policy with the text it still holds.
pub enum PolicyModel {
    /// The line being typed and the lines that follow it.
    Chunk { current: Seq<char>, queue: Seq<Seq<char>> },
    /// The sliding window, and how many columns right of its home column
    /// the cursor may stand before the window scrolls.
    Scroll { window: Window, threshold: nat },
}

impl PolicyModel {
    /// The text that is visible and to be typed.
    pub open spec fn current_text(self) -> Seq<char> {
        match self {
            PolicyModel::Chunk { current, .. } => current,
            PolicyModel::Scroll { window, .. } => window.visible(),
        }
    }

    /// The text of the unit that comes next, empty where there is none.
    pub open spec fn preview(self) -> Seq<char> {
        match self {
            PolicyModel::Chunk { queue, .. } => if queue.len() > 0 {
                queue[0]
            } else {
                Seq::empty()
            },
            PolicyModel::Scroll { .. } => Seq::empty(),
        }
    }

    /// Whether the policy can supply another unit: the queue another line,
    /// the window another character.
    pub open spec fn can_advance(self) -> bool {
        match self {
            PolicyModel::Chunk { queue, .. } => queue.len() > 0,
            PolicyModel::Scroll { window, .. } => !window.at_end(),
        }
    }

    /// The policy one unit further on: the front of the queue has become
    /// the current line, or no line is current if the queue was empty; the
    /// window has shifted forward, or stands where it stood at the end of
    /// the text.
    pub open spec fn advanced(self) -> PolicyModel {
        match self {
            PolicyModel::Chunk { current, queue } => if queue.len() > 0 {
                PolicyModel::Chunk { current: queue[0], queue: queue.drop_first() }
            } else {
                PolicyModel::Chunk { current: Seq::empty(), queue }
            },
            PolicyModel::Scroll { window, threshold } => PolicyModel::Scroll {
                window: window.forward(),
                threshold,
            },
        }
    }

    pub open spec fn kind(self) -> PolicyKind {
        match self {
            PolicyModel::Chunk { .. } => PolicyKind::Chunk,
            PolicyModel::Scroll { .. } => PolicyKind::Scroll,
        }
    }
}

/// The log entries that an event adds, by the kind of the event before it:
/// a character after a character is an entry, and a mistake besides if the
/// input is no correct prefix of the target; a character after a deletion is
/// a corrected mistake; anything else adds nothing.
pub open spec fn recorded(
    previous: Option<DecodedEvent>,
    event: DecodedEvent,
    correct: bool,
) -> Seq<EntryType> {
    match (event, previous) {
        (DecodedEvent::CharTyped(_), Some(DecodedEvent::CharTyped(_))) => if correct {
            seq![EntryType::Entry]
        } else {
            seq![EntryType::Entry, EntryType::Mistake]
        },
        (DecodedEvent::CharTyped(_), Some(DecodedEvent::Backspace)) => seq![
            EntryType::CorrectedMistake,
        ],
        _ => Seq::empty(),
    }
}

/// The threshold that a window of `visible_width` characters scrolls at: the
/// one asked for, or the width less one if that is smaller.
pub open spec fn effective_threshold(visible_width: u16, threshold: u16) -> nat {
    if threshold < visible_width {
        threshold as nat
    } else {
        (visible_width - 1) as nat
    }
}

/// The policy that `mode` makes of the words, before anything is typed.
pub open spec fn policy_for(words: Seq<Seq<char>>, mode: Mode) -> PolicyModel {
    match mode {
        Mode::Chunks(size) => PolicyModel::Chunk {
            current: Seq::empty(),
            queue: chunked(words, size as nat),
        },
        Mode::Lines(width) => PolicyModel::Chunk {
            current: Seq::empty(),
            queue: wrapped(words, width as nat),
        },
        Mode::Scroll { visible_width, threshold } => PolicyModel::Scroll {
            window: Window { text: join(words), offset: 0, width: visible_width as nat },
            threshold: effective_threshold(visible_width, threshold),
        },
    }
}

/// Why a session in state `state` cannot be loaded with the words in
/// `mode`, if it cannot: it is not loading; or the chunk size or the width
/// is zero; or there are no words.
pub open spec fn config_error(state: SessionState, words: Seq<Seq<char>>, mode: Mode) -> Option<
    ConfigError,
> {
    if state != SessionState::Loading {
        Some(ConfigError::NotLoading)
    } else if mode == Mode::Chunks(0) {
        Some(ConfigError::ZeroChunkSize)
    } else if mode == Mode::Lines(0) || (mode is Scroll && mode->visible_width == 0) {
        Some(ConfigError::ZeroVisibleWidth)
    } else if words.len() == 0 {
        Some(ConfigError::EmptyWordSource)
    } else {
        None
    }
}

/// The column at which a text of `length` characters starts if it is
/// centred in `extent` columns; column zero if the text is too long for that.
pub open spec fn centred(extent: u16, length: nat) -> u16 {
    if length / 2 <= extent / 2 {
        (extent / 2 - length / 2) as u16
    } else {
        0
    }
}

/// A session: its state, the viewport, the windowing policy, what has been
/// typed and is visible, what has been typed and has scrolled out of sight,
/// the home position of the cursor, the statistics log and the last event.
pub struct Session {
    pub state: SessionState,
    pub dimensions: (u16, u16),
    pub policy: Option<PolicyModel>,
    pub input: Seq<char>,
    pub hidden: Seq<char>,
    pub home: (u16, u16),
    pub log: Seq<EntryType>,
    pub last_event: Option<DecodedEvent>,
}

impl Session {
    /// The text that is visible and to be typed; empty before any is loaded.
    pub open spec fn target(self) -> Seq<char> {
        match self.policy {
            Some(policy) => policy.current_text(),
            None => Seq::empty(),
        }
    }

    /// The column of the cursor, which stands behind the visible input.
    pub open spec fn cursor_column(self) -> int {
        self.home.0 + self.input.len()
    }

    /// Whether the cursor stands more than `threshold` columns right of its
    /// home column.
    pub open spec fn past_threshold(self, threshold: nat) -> bool {
        self.cursor_column() > self.home.0 + threshold
    }

    /// Everything that has been typed and not deleted, oldest first.
    pub open spec fn typed_history(self) -> Seq<char> {
        self.hidden + self.input
    }

    /// An advancing session with its input cleared and its policy one unit
    /// further on: active if the policy could supply the unit, completed if
    /// not. Any other session as it is.
    pub open spec fn advanced(self) -> Session {
        if self.state != SessionState::Advancing {
            self
        } else {
            match self.policy {
                Some(policy) => Session {
                    state: if policy.can_advance() {
                        SessionState::Active
                    } else {
                        SessionState::Completed
                    },
                    input: Seq::empty(),
                    policy: Some(policy.advanced()),
                    ..self
                },
                None => Session { state: SessionState::Completed, input: Seq::empty(), ..self },
            }
        }
    }

    /// An active session behind a window that has reached the end of the
    /// text, with all that is visible typed, is completed. Any other session
    /// as it is.
    pub open spec fn settled(self) -> Session {
        match self.policy {
            Some(PolicyModel::Scroll { window, .. }) => if self.state == SessionState::Active
                && window.at_end() && self.input.len() >= window.visible().len() {
                Session { state: SessionState::Completed, ..self }
            } else {
                self
            },
            _ => self,
        }
    }

    /// The session after the character `c` has gone into the input.
    ///
    /// With a queue of lines, the session advances once the input is as long
    /// as the current line. Behind a sliding window, a cursor past the
    /// threshold makes the window shift forward and the oldest visible
    /// character go out of sight; if the window cannot shift, the session is
    /// completed.
    pub open spec fn typed(self, c: char) -> Session {
        let input = self.input.push(c);
        match self.policy {
            Some(PolicyModel::Chunk { current, .. }) => if input.len() >= current.len() {
                Session { state: SessionState::Advancing, input, ..self }.advanced()
            } else {
                Session { input, ..self }
            },
            Some(PolicyModel::Scroll { threshold, .. }) => if self.past_threshold(threshold) {
                if !self.policy->Some_0.can_advance() {
                    Session { state: SessionState::Completed, input, ..self }
                } else {
                    Session {
                        input: input.drop_first(),
                        hidden: self.hidden.push(input[0]),
                        policy: Some(self.policy->Some_0.advanced()),
                        ..self
                    }.settled()
                }
            } else {
                Session { input, ..self }.settled()
            },
            None => self,
        }
    }

    /// The session after the last character has left the input; the same
    /// session if the input is empty.
    ///
    /// Behind a sliding window, a cursor past the threshold makes the window
    /// shift back and the youngest character out of sight come back to the
    /// front of the input, if there is one.
    pub open spec fn erased(self) -> Session {
        if self.input.len() == 0 {
            self
        } else {
            let input = self.input.drop_last();
            match self.policy {
                Some(PolicyModel::Scroll { window, threshold }) => if self.past_threshold(
                    threshold,
                ) {
                    let policy = Some(PolicyModel::Scroll { window: window.back(), threshold });
                    if self.hidden.len() > 0 {
                        Session {
                            input: seq![self.hidden.last()] + input,
                            hidden: self.hidden.drop_last(),
                            policy,
                            ..self
                        }
                    } else {
                        Session { input, policy, ..self }
                    }
                } else {
                    Session { input, ..self }
                },
                _ => Session { input, ..self },
            }
        }
    }

    /// A session that has not been loaded, for a viewport of the given
    /// dimensions.
    pub open spec fn loading(dimensions: (u16, u16)) -> Session {
        Session {
            state: SessionState::Loading,
            dimensions,
            policy: None,
            input: Seq::empty(),
            hidden: Seq::empty(),
            home: (0, 0),
            log: Seq::empty(),
            last_event: None,
        }
    }

    /// The session as it starts on the given policy, with nothing typed and
    /// no event before it: a queue supplies its first line, or the session
    /// is completed at once if it holds none; a window shows the start of
    /// its text, or the session is completed at once if there is nothing to
    /// type.
    pub open spec fn started(self, policy: PolicyModel) -> Session {
        let fresh = Session {
            policy: Some(policy),
            input: Seq::empty(),
            hidden: Seq::empty(),
            last_event: None,
            ..self
        };
        match policy {
            PolicyModel::Chunk { .. } => Session {
                state: SessionState::Advancing,
                ..fresh
            }.advanced(),
            PolicyModel::Scroll { .. } => Session {
                state: SessionState::Active,
                ..fresh
            }.settled(),
        }
    }

    /// The session with the home position of its cursor laid out anew: in
    /// the middle row of the viewport, at the column that centres the
    /// visible text.
    pub open spec fn laid_out(self) -> Session {
        Session {
            home: (centred(self.dimensions.0, self.target().len()), self.dimensions.1 / 2),
            ..self
        }
    }

    /// The text of the unit that comes next, empty where there is none.
    pub open spec fn preview(self) -> Seq<char> {
        match self.policy {
            Some(policy) => policy.preview(),
            None => Seq::empty(),
        }
    }

    /// Which policy the session uses, once it is loaded.
    pub open spec fn policy_kind(self) -> Option<PolicyKind> {
        match self.policy {
            Some(policy) => Some(policy.kind()),
            None => None,
        }
    }

    /// Whether the session takes characters and deletions.
    pub open spec fn accepts_keys(self) -> bool {
        self.state == SessionState::Active && self.policy is Some
    }

    /// The session after one event.
    ///
    /// A cancel ends the session whatever its state. A completed or
    /// cancelled session takes nothing else. A resize sets the viewport and
    /// leaves the rest alone. An active session takes characters, which are
    /// logged by the kind of the event before them, and deletions, which are
    /// not logged. The event is remembered as the last one in every case.
    pub open spec fn step(self, event: DecodedEvent) -> Session {
        let next = match event {
            DecodedEvent::Cancel => Session { state: SessionState::Cancelled, ..self },
            DecodedEvent::Resize(width, height) => if self.state == SessionState::Completed
                || self.state == SessionState::Cancelled {
                self
            } else {
                Session { dimensions: (width, height), ..self }
            },
            DecodedEvent::CharTyped(c) => if self.accepts_keys() {
                Session {
                    log: self.log + recorded(
                        self.last_event,
                        event,
                        is_correct_prefix(self.target(), self.input.push(c)),
                    ),
                    ..self.typed(c)
                }
            } else {
                self
            },
            DecodedEvent::Backspace => if self.accepts_keys() {
                self.erased()
            } else {
                self
            },
        };
        Session { last_event: Some(event), ..next }
    }

    /// The session after a run of events, in their order.
    pub open spec fn run(self, events: Seq<DecodedEvent>) -> Session
        decreases events.len(),
    {
        if events.len() == 0 {
            self
        } else {
            self.run(events.drop_last()).step(events.last())
        }
    }
}

} // verus!
