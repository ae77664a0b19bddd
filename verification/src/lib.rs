//! A typing-practice engine: target text is cut into prompts, keystrokes are
//! judged against the visible target, and a session controller advances
//! through the text while a statistics log grows.
//!
//! The engine does no input or output of its own. A host decodes the keys
//! into events, hands them to the controller one at a time, and paints the
//! snapshot that the controller gives back.
//!
//! - `words`: the word source and its segmentation into lines, by a fixed
//!   count of words or wrapped to a width.
//! - `queue`: the lines still to come, for the policy that moves on line by
//!   line.
//! - `prompt`: the sliding window, for the policy that scrolls through one
//!   continuous text.
//! - `input`: typed characters and their verdicts against the target.
//! - `stats`: the log of a session and the figures derived from it.
//! - `session`: the session as a state machine over decoded events.
//! - `theorems`: the invariant of a session and what follows from it.
//! - `controller`: the controller that a host drives.

pub mod config;
pub mod controller;
pub mod input;
pub mod prompt;
pub mod queue;
pub mod session;
pub mod stats;
pub mod text;
pub mod theorems;
pub mod ui;
pub mod words;
