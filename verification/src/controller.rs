//! The session controller: it owns one windowing policy, the input typed so
//! far and the statistics, and takes one decoded event at a time.

use crate::config::{ConfigError, Mode};
use crate::input::{is_correct_prefix, match_input, matches_prefix, verdicts_of, Verdict};
use crate::prompt::Prompt;
use crate::queue::PromptQueue;
use crate::session::{
    centred, config_error, effective_threshold, policy_for, recorded, DecodedEvent, PolicyKind,
    PolicyModel, Session, SessionState,
};
use crate::stats::{count_of, whole_minutes, EntryType, Stats, StatsSnapshot};
use crate::theorems::{
    lemma_loading_is_wf, lemma_started_is_wf, lemma_started_on_queue_is_wf,
    lemma_step_preserves_wf,
};
use crate::words::{PromptLine, WordSource};
use std::collections::VecDeque;
use vstd::prelude::*;

verus! {

/// One of the two windowing policies, with the text it still holds.
#[derive(Debug)]
pub enum Policy {
    /// Lines typed one after the other: the current one, and the queue of
    /// those that follow.
    Chunk { current: PromptLine, queue: PromptQueue },
    /// One text behind a sliding window, which scrolls once the cursor
    /// stands more than `threshold` columns right of its home column.
    Scroll { window: Prompt, threshold: u16 },
}

impl View for Policy {
    type V = PolicyModel;

    open spec fn view(&self) -> PolicyModel {
        match self {
            Policy::Chunk { current, queue } => PolicyModel::Chunk {
                current: current@,
                queue: queue@,
            },
            Policy::Scroll { window, threshold } => PolicyModel::Scroll {
                window: window@,
                threshold: *threshold as nat,
            },
        }
    }
}

impl Policy {
    /// The text that is visible and to be typed.
    pub fn current_text(&self) -> (text: Vec<char>)
        ensures
            text@ == self@.current_text(),
    {
        match self {
            Policy::Chunk { current, .. } => current.to_chars(),
            Policy::Scroll { window, .. } => window.visible_chars(),
        }
    }

    /// The number of characters that are visible and to be typed.
    pub fn visible_width(&self) -> (width: usize)
        ensures
            width == self@.current_text().len(),
    {
        match self {
            Policy::Chunk { current, .. } => current.len(),
            Policy::Scroll { window, .. } => window.len() as usize,
        }
    }

    /// The text of the unit that comes next, empty where there is none.
    pub fn preview(&self) -> (text: String)
        ensures
            text@ == self@.preview(),
    {
        match self {
            Policy::Chunk { queue, .. } => queue.peek_next(),
            Policy::Scroll { .. } => String::new(),
        }
    }

    pub fn kind(&self) -> (kind: PolicyKind)
        ensures
            kind == self@.kind(),
    {
        match self {
            Policy::Chunk { .. } => PolicyKind::Chunk,
            Policy::Scroll { .. } => PolicyKind::Scroll,
        }
    }

    /// Whether the policy can supply another unit.
    pub fn can_advance(&self) -> (b: bool)
        ensures
            b == self@.can_advance(),
    {
        match self {
            Policy::Chunk { queue, .. } => queue.len() > 0,
            Policy::Scroll { window, .. } => !window.at_end(),
        }
    }

    /// Moves on by one unit and says whether there was one to move on to.
    pub fn advance(&mut self) -> (supplied: bool)
        ensures
            supplied == old(self)@.can_advance(),
            final(self)@ == old(self)@.advanced(),
    {
        match self {
            Policy::Chunk { current, queue } => {
                match queue.pop_current() {
                    Ok(line) => {
                        *current = line;
                        true
                    },
                    Err(_) => {
                        *current = PromptLine::from_chars(Vec::new());
                        false
                    },
                }
            },
            Policy::Scroll { window, .. } => {
                let supplied = !window.at_end();
                window.shift_forward();
                supplied
            },
        }
    }

    /// Moves back by one character where the policy is a sliding window.
    pub fn retreat(&mut self)
        ensures
            final(self)@ == (match old(self)@ {
                PolicyModel::Scroll { window, threshold } => PolicyModel::Scroll {
                    window: window.back(),
                    threshold,
                },
                chunk => chunk,
            }),
    {
        match self {
            Policy::Chunk { .. } => {},
            Policy::Scroll { window, .. } => {
                window.shift_back();
            },
        }
    }
}

/// What the host needs to display a session.
#[derive(Debug)]
pub struct Snapshot {
    /// Every character of the visible text with its verdict.
    pub verdicts: Vec<(char, Verdict)>,
    /// The text of the unit that comes next, empty where there is none.
    pub preview: String,
    /// The number of characters of the visible text.
    pub visible_len: usize,
    /// The kind of windowing policy, once the session is loaded.
    pub policy: Option<PolicyKind>,
    /// Where the session stands.
    pub state: SessionState,
    /// The counts of the log and the minutes that have passed.
    pub stats: StatsSnapshot,
}

/// The session controller.
#[derive(Debug)]
pub struct App {
    dimensions: (u16, u16),
    policy: Option<Policy>,
    input_buffer: VecDeque<char>,
    hidden_input_buffer: VecDeque<char>,
    cursor_position: (u16, u16),
    stats: Stats,
    last_event: Option<DecodedEvent>,
    state: SessionState,
}

impl View for App {
    type V = Session;

    closed spec fn view(&self) -> Session {
        Session {
            state: self.state,
            dimensions: self.dimensions,
            policy: match self.policy {
                Some(policy) => Some(policy@),
                None => None,
            },
            input: self.input_buffer@,
            hidden: self.hidden_input_buffer@,
            home: self.cursor_position,
            log: self.stats@,
            last_event: self.last_event,
        }
    }
}

impl App {
    /// A controller for a viewport of the given size, with no text loaded.
    pub fn new(width: u16, height: u16) -> (app: App)
        ensures
            app@ == Session::loading((width, height)),
            app@.wf(),
    {
        proof {
            lemma_loading_is_wf((width, height));
        }
        App {
            dimensions: (width, height),
            policy: None,
            input_buffer: VecDeque::new(),
            hidden_input_buffer: VecDeque::new(),
            cursor_position: (0, 0),
            stats: Stats::default(),
            last_event: None,
            state: SessionState::Loading,
        }
    }

    /// Where the session stands.
    pub fn state(&self) -> (state: SessionState)
        ensures
            state == self@.state,
    {
        self.state
    }

    /// The width and height of the viewport.
    pub fn dimensions(&self) -> (dimensions: (u16, u16))
        ensures
            dimensions == self@.dimensions,
    {
        self.dimensions
    }

    /// The home position of the cursor, as it was last laid out.
    pub fn cursor_position(&self) -> (home: (u16, u16))
        ensures
            home == self@.home,
    {
        self.cursor_position
    }

    /// The statistics of the session.
    pub fn stats(&self) -> (stats: &Stats)
        ensures
            stats@ == self@.log,
    {
        &self.stats
    }

    /// The windowing policy, once the session is loaded.
    pub fn policy(&self) -> (policy: Option<&Policy>)
        ensures
            policy is Some <==> self@.policy is Some,
            policy is Some ==> Some(policy->Some_0@) == self@.policy,
    {
        self.policy.as_ref()
    }

    /// What has been typed and is visible.
    pub fn input_buffer(&self) -> (input: &VecDeque<char>)
        ensures
            input@ == self@.input,
    {
        &self.input_buffer
    }

    /// What has been typed and has scrolled out of sight.
    pub fn hidden_input_buffer(&self) -> (hidden: &VecDeque<char>)
        ensures
            hidden@ == self@.hidden,
    {
        &self.hidden_input_buffer
    }

    /// The event that was taken last.
    pub fn last_event(&self) -> (event: Option<DecodedEvent>)
        ensures
            event == self@.last_event,
    {
        self.last_event
    }

    /// Whether the session takes characters and deletions.
    pub fn accepts_keys(&self) -> (b: bool)
        ensures
            b == self@.accepts_keys(),
    {
        self.state == SessionState::Active && self.policy.is_some()
    }

    /// Resolves the advancing state: clears the input and asks the policy
    /// for the next unit.
    fn advance(&mut self)
        ensures
            final(self)@ == old(self)@.advanced(),
    {
        if self.state == SessionState::Advancing {
            self.input_buffer.clear();
            let supplied = match &mut self.policy {
                Some(policy) => policy.advance(),
                None => false,
            };
            self.state = if supplied {
                SessionState::Active
            } else {
                SessionState::Completed
            };
        }
    }

    /// Writes into the log what a typed character adds to it, by the kind
    /// of the event before it.
    fn record_typed(&mut self, c: char, correct: bool)
        ensures
            final(self)@ == (Session {
                log: old(self)@.log + recorded(
                    old(self)@.last_event,
                    DecodedEvent::CharTyped(c),
                    correct,
                ),
                ..old(self)@
            }),
    {
        let ghost added = recorded(self@.last_event, DecodedEvent::CharTyped(c), correct);
        match self.last_event {
            Some(DecodedEvent::CharTyped(_)) => {
                self.stats.record(EntryType::Entry);
                if !correct {
                    self.stats.record(EntryType::Mistake);
                }
            },
            Some(DecodedEvent::Backspace) => {
                self.stats.record(EntryType::CorrectedMistake);
            },
            _ => {},
        }
        assert(self@.log =~= old(self)@.log + added);
    }

    /// Takes one typed character into an active session.
    fn type_char(&mut self, c: char)
        requires
            old(self)@.accepts_keys(),
        ensures
            final(self)@ == (Session {
                log: old(self)@.log + recorded(
                    old(self)@.last_event,
                    DecodedEvent::CharTyped(c),
                    is_correct_prefix(old(self)@.target(), old(self)@.input.push(c)),
                ),
                ..old(self)@.typed(c)
            }),
    {
        let (target, kind, threshold) = match &self.policy {
            Some(policy) => (
                policy.current_text(),
                policy.kind(),
                match policy {
                    Policy::Scroll { threshold, .. } => *threshold as usize,
                    Policy::Chunk { .. } => 0,
                },
            ),
            None => (Vec::new(), PolicyKind::Chunk, 0),
        };
        let ghost before = self@;
        let past_threshold = self.input_buffer.len() > threshold;
        self.input_buffer.push_back(c);
        let correct = matches_prefix(&target, &self.input_buffer);
        self.record_typed(c, correct);
        match kind {
            PolicyKind::Chunk => {
                if self.input_buffer.len() >= target.len() {
                    self.state = SessionState::Advancing;
                    self.advance();
                }
            },
            PolicyKind::Scroll => {
                let supplied = past_threshold && match &mut self.policy {
                    Some(policy) => policy.can_advance() && policy.advance(),
                    None => false,
                };
                if supplied {
                    match self.input_buffer.pop_front() {
                        Some(invisible) => {
                            self.hidden_input_buffer.push_back(invisible);
                        },
                        None => {},
                    }
                    assert(self@.input =~= before.input.push(c).drop_first());
                    self.settle();
                } else if past_threshold {
                    self.state = SessionState::Completed;
                } else {
                    self.settle();
                }
            },
        }
    }

    /// Deletes the last character of the input of an active session.
    fn erase(&mut self)
        requires
            old(self)@.accepts_keys(),
        ensures
            final(self)@ == old(self)@.erased(),
    {
        let threshold = match &self.policy {
            Some(Policy::Scroll { threshold, .. }) => Some(*threshold as usize),
            _ => None,
        };
        let length = self.input_buffer.len();
        match self.input_buffer.pop_back() {
            Some(_) => {
                match threshold {
                    Some(threshold) => {
                        if length > threshold {
                            match &mut self.policy {
                                Some(policy) => policy.retreat(),
                                None => {},
                            }
                            match self.hidden_input_buffer.pop_back() {
                                Some(visible) => {
                                    self.input_buffer.push_front(visible);
                                },
                                None => {},
                            }
                        }
                    },
                    None => {},
                }
            },
            None => {},
        }
    }

    /// Takes one decoded event.
    pub fn update(&mut self, event: DecodedEvent)
        ensures
            final(self)@ == old(self)@.step(event),
            old(self)@.wf() ==> final(self)@.wf(),
    {
        proof {
            if self@.wf() {
                lemma_step_preserves_wf(self@, event);
            }
        }
        match event {
            DecodedEvent::Cancel => {
                self.state = SessionState::Cancelled;
            },
            DecodedEvent::Resize(width, height) => {
                if self.state != SessionState::Completed && self.state != SessionState::Cancelled {
                    self.dimensions = (width, height);
                }
            },
            DecodedEvent::CharTyped(c) => {
                if self.accepts_keys() {
                    self.type_char(c);
                }
            },
            DecodedEvent::Backspace => {
                if self.accepts_keys() {
                    self.erase();
                }
            },
        }
        self.last_event = Some(event);
    }

    /// Starts the session on a policy, with nothing typed and no event
    /// before it.
    fn start(&mut self, policy: Policy)
        ensures
            final(self)@ == old(self)@.started(policy@),
    {
        let kind = policy.kind();
        self.policy = Some(policy);
        self.input_buffer.clear();
        self.hidden_input_buffer.clear();
        self.last_event = None;
        match kind {
            PolicyKind::Chunk => {
                self.state = SessionState::Advancing;
                self.advance();
            },
            PolicyKind::Scroll => {
                self.state = SessionState::Active;
                self.settle();
            },
        }
    }

    /// Starts a loading session on a queue of lines: it becomes active on
    /// the first line, or completed at once if the queue holds none. A
    /// session that is not loading is left as it is.
    pub fn load_prompts(&mut self, queue: PromptQueue) -> (r: Result<(), ConfigError>)
        ensures
            r is Err <==> old(self)@.state != SessionState::Loading,
            r is Err ==> r == Err::<(), ConfigError>(ConfigError::NotLoading) && final(self)@
                == old(self)@,
            r is Ok ==> final(self)@ == old(self)@.started(
                PolicyModel::Chunk { current: Seq::empty(), queue: queue@ },
            ),
            old(self)@.wf() ==> final(self)@.wf(),
    {
        if self.state != SessionState::Loading {
            return Err(ConfigError::NotLoading);
        }
        proof {
            lemma_started_on_queue_is_wf(self@, queue@);
        }
        self.start(Policy::Chunk { current: PromptLine::from_chars(Vec::new()), queue });
        Ok(())
    }

    /// Starts a loading session on the words of `source`, cut up and moved
    /// through as `mode` says. A malformed configuration is refused and
    /// leaves the session loading.
    pub fn load(&mut self, source: &WordSource, mode: Mode) -> (r: Result<(), ConfigError>)
        ensures
            r == (match config_error(old(self)@.state, source@, mode) {
                Some(error) => Err::<(), ConfigError>(error),
                None => Ok::<(), ConfigError>(()),
            }),
            r is Err ==> final(self)@ == old(self)@,
            r is Ok ==> final(self)@ == old(self)@.started(policy_for(source@, mode)),
            old(self)@.wf() ==> final(self)@.wf(),
    {
        if self.state != SessionState::Loading {
            return Err(ConfigError::NotLoading);
        }
        let current = PromptLine::from_chars(Vec::new());
        let policy = match mode {
            Mode::Chunks(size) => {
                let lines = match source.chunks(size) {
                    Ok(lines) => lines,
                    Err(error) => {
                        return Err(error);
                    },
                };
                Policy::Chunk { current, queue: PromptQueue::new(lines) }
            },
            Mode::Lines(width) => {
                let lines = match source.wrap(width) {
                    Ok(lines) => lines,
                    Err(error) => {
                        return Err(error);
                    },
                };
                Policy::Chunk { current, queue: PromptQueue::new(lines) }
            },
            Mode::Scroll { visible_width, threshold } => {
                let window = match Prompt::new(source, visible_width) {
                    Ok(window) => window,
                    Err(error) => {
                        return Err(error);
                    },
                };
                let threshold = if threshold < visible_width {
                    threshold
                } else {
                    visible_width - 1
                };
                Policy::Scroll { window, threshold }
            },
        };
        if source.is_empty() {
            return Err(ConfigError::EmptyWordSource);
        }
        proof {
            lemma_started_is_wf(self@, source@, mode);
        }
        self.start(policy);
        Ok(())
    }

    /// Ends the session and makes the controller ready to be loaded again:
    /// the viewport stays, all else is as new.
    pub fn reset(&mut self)
        ensures
            final(self)@ == Session::loading(old(self)@.dimensions),
            final(self)@.wf(),
    {
        proof {
            lemma_loading_is_wf(self@.dimensions);
        }
        self.policy = None;
        self.input_buffer.clear();
        self.hidden_input_buffer.clear();
        self.cursor_position = (0, 0);
        self.stats = Stats::default();
        self.last_event = None;
        self.state = SessionState::Loading;
    }

    /// Lays out the home position of the cursor anew and returns it.
    pub fn reset_cursor(&mut self) -> (home: (u16, u16))
        ensures
            final(self)@ == old(self)@.laid_out(),
            home == final(self)@.home,
            old(self)@.wf() ==> final(self)@.wf(),
    {
        let length: usize = match &self.policy {
            Some(policy) => policy.visible_width(),
            None => 0,
        };
        let middle: usize = (self.dimensions.0 / 2) as usize;
        let cursor_x: u16 = if length / 2 <= middle {
            (middle - length / 2) as u16
        } else {
            0
        };
        let cursor_y: u16 = self.dimensions.1 / 2;
        self.cursor_position = (cursor_x, cursor_y);
        self.cursor_position
    }

    /// What there is to display: every character of the visible text with
    /// its verdict, the text of the unit that comes next, the length of the
    /// visible text, the kind of policy, the state, and the counts of the
    /// log with the minutes that have passed. The home position of the
    /// cursor is laid out anew.
    pub fn snapshot(&mut self) -> (snapshot: Snapshot)
        ensures
            final(self)@ == old(self)@.laid_out(),
            snapshot.verdicts@ == verdicts_of(old(self)@.target(), old(self)@.input),
            snapshot.preview@ == old(self)@.preview(),
            snapshot.visible_len == old(self)@.target().len(),
            snapshot.policy == old(self)@.policy_kind(),
            snapshot.state == old(self)@.state,
            snapshot.stats.entries == count_of(old(self)@.log, EntryType::Entry),
            snapshot.stats.mistakes == count_of(old(self)@.log, EntryType::Mistake),
            snapshot.stats.corrected_mistakes == count_of(
                old(self)@.log,
                EntryType::CorrectedMistake,
            ),
            exists|secs: u64| snapshot.stats.minutes == whole_minutes(secs),
            old(self)@.wf() ==> final(self)@.wf(),
    {
        self.reset_cursor();
        let (target, preview, policy) = match &self.policy {
            Some(policy) => (policy.current_text(), policy.preview(), Some(policy.kind())),
            None => (Vec::new(), String::new(), None),
        };
        Snapshot {
            verdicts: match_input(&target, &self.input_buffer),
            preview,
            visible_len: target.len(),
            policy,
            state: self.state,
            stats: self.stats.snapshot(),
        }
    }

    /// Completes an active session whose window stands at the end of the
    /// text with all that is visible typed.
    fn settle(&mut self)
        ensures
            final(self)@ == old(self)@.settled(),
    {
        let done = match &self.policy {
            Some(policy) => policy.kind() == PolicyKind::Scroll && !policy.can_advance()
                && self.input_buffer.len() >= policy.visible_width(),
            None => false,
        };
        if done && self.state == SessionState::Active {
            self.state = SessionState::Completed;
        }
    }
}

} // verus!
