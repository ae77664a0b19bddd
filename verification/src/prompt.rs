//! The sliding window: one long text, of which a slice of fixed width is
//! visible at an offset that moves one character at a time.

use crate::config::ConfigError;
use crate::text::{join, to_text};
use crate::words::WordSource;
use std::collections::VecDeque;
use vstd::prelude::*;

verus! {

/// A text with a visible slice of `width` characters that starts at `offset`.
pub struct Window {
    pub text: Seq<char>,
    pub offset: nat,
    pub width: nat,
}

impl Window {
    /// The largest offset at which a full window does not run off the end
    /// of the text; zero where the text is shorter than the window.
    pub open spec fn max_offset(self) -> nat {
        if self.text.len() >= self.width {
            (self.text.len() - self.width) as nat
        } else {
            0
        }
    }

    /// The window is at least one character wide and lies within the text.
    pub open spec fn wf(self) -> bool {
        &&& self.width > 0
        &&& self.offset <= self.max_offset()
    }

    /// The offset brought into the range that `max_offset` bounds.
    pub open spec fn clamp(self, offset: int) -> nat {
        if offset < 0 {
            0
        } else if offset > self.max_offset() {
            self.max_offset()
        } else {
            offset as nat
        }
    }

    /// Whether the window has reached the end of the text.
    pub open spec fn at_end(self) -> bool {
        self.offset >= self.max_offset()
    }

    /// The window one character further on, or where it is if it is at the end.
    pub open spec fn forward(self) -> Window {
        Window { offset: self.clamp(self.offset as int + 1), ..self }
    }

    /// The window one character further back, or where it is if it is at the start.
    pub open spec fn back(self) -> Window {
        Window { offset: self.clamp(self.offset as int - 1), ..self }
    }

    /// The visible slice of the text.
    pub open spec fn visible(self) -> Seq<char> {
        self.text.subrange(
            self.offset as int,
            if self.offset + self.width <= self.text.len() {
                (self.offset + self.width) as int
            } else {
                self.text.len() as int
            },
        )
    }

    /// The window after a run of shifts, `true` for one forward and `false`
    /// for one back, in the order of `shifts`.
    pub open spec fn shifted(self, shifts: Seq<bool>) -> Window
        decreases shifts.len(),
    {
        if shifts.len() == 0 {
            self
        } else if shifts.last() {
            self.shifted(shifts.drop_last()).forward()
        } else {
            self.shifted(shifts.drop_last()).back()
        }
    }
}

/// Whatever the offset was, after one shift or more it lies between zero and
/// the largest offset of a full window; the text and the width never change.
pub proof fn lemma_shifts_stay_in_range(window: Window, shifts: Seq<bool>)
    requires
        shifts.len() > 0 || window.offset <= window.max_offset(),
    ensures
        0 <= window.shifted(shifts).offset <= window.max_offset(),
        window.shifted(shifts).text == window.text,
        window.shifted(shifts).width == window.width,
{
    lemma_shifts_keep_text(window, shifts);
    if shifts.len() > 0 {
        lemma_shifts_keep_text(window, shifts.drop_last());
    }
}

/// Shifts move the offset only: the text and the width stay as they are.
pub proof fn lemma_shifts_keep_text(window: Window, shifts: Seq<bool>)
    ensures
        window.shifted(shifts).text == window.text,
        window.shifted(shifts).width == window.width,
    decreases shifts.len(),
{
    if shifts.len() > 0 {
        lemma_shifts_keep_text(window, shifts.drop_last());
    }
}

/// A shift at the bound it runs into changes nothing: forward at the end of
/// the text, back at its start.
pub proof fn lemma_shift_clamps(window: Window)
    requires
        window.offset <= window.max_offset(),
    ensures
        window.at_end() ==> window.forward() == window,
        window.offset == 0 ==> window.back() == window,
        !window.at_end() ==> window.forward().back() == window,
        window.offset > 0 ==> window.back().forward() == window,
{
}

/// The sliding window over the words of a source, joined with single spaces.
#[derive(Debug)]
pub struct Prompt {
    prompt_buffer: VecDeque<char>,
    offset: usize,
    displayed_length: u16,
}

impl View for Prompt {
    type V = Window;

    closed spec fn view(&self) -> Window {
        Window {
            text: self.prompt_buffer@,
            offset: self.offset as nat,
            width: self.displayed_length as nat,
        }
    }
}

impl Prompt {
    #[verifier::type_invariant]
    pub open spec fn inv(&self) -> bool {
        self@.wf()
    }

    /// A window of `displayed_length` characters at the start of the words of
    /// `source`, joined with single spaces. A width of zero is refused, and
    /// so is a source without words.
    pub fn new(source: &WordSource, displayed_length: u16) -> (r: Result<Prompt, ConfigError>)
        ensures
            r == Err::<Prompt, ConfigError>(ConfigError::ZeroVisibleWidth) <==> displayed_length
                == 0,
            r == Err::<Prompt, ConfigError>(ConfigError::EmptyWordSource) <==> displayed_length
                != 0 && source@.len() == 0,
            r is Err ==> displayed_length == 0 || source@.len() == 0,
            r is Ok ==> r->Ok_0@ == (Window {
                text: join(source@),
                offset: 0,
                width: displayed_length as nat,
            }),
    {
        if displayed_length == 0 {
            return Err(ConfigError::ZeroVisibleWidth);
        }
        if source.is_empty() {
            return Err(ConfigError::EmptyWordSource);
        }
        let text = source.joined();
        let mut buffer: VecDeque<char> = VecDeque::new();
        let mut i: usize = 0;
        while i < text.len()
            invariant
                i <= text.len(),
                buffer@ == text@.subrange(0, i as int),
            decreases text.len() - i,
        {
            buffer.push_back(text[i]);
            i += 1;
            assert(buffer@ =~= text@.subrange(0, i as int));
        }
        assert(text@.subrange(0, text.len() as int) =~= text@);
        Ok(Prompt { prompt_buffer: buffer, offset: 0, displayed_length })
    }

    /// The offset of the visible slice.
    pub fn offset(&self) -> (offset: usize)
        ensures
            offset == self@.offset,
            self@.wf(),
    {
        proof {
            use_type_invariant(self);
        }
        self.offset
    }

    /// The width of the window.
    pub fn displayed_length(&self) -> (width: u16)
        ensures
            width == self@.width,
            self@.wf(),
    {
        proof {
            use_type_invariant(self);
        }
        self.displayed_length
    }

    /// The largest offset that the window can reach.
    pub fn max_offset(&self) -> (max: usize)
        ensures
            max == self@.max_offset(),
    {
        let len: usize = self.prompt_buffer.len();
        let width: usize = self.displayed_length as usize;
        if len >= width {
            len - width
        } else {
            0
        }
    }

    /// Whether the window has reached the end of the text.
    pub fn at_end(&self) -> (b: bool)
        ensures
            b == self@.at_end(),
    {
        self.offset >= self.max_offset()
    }

    /// Puts the window at the given offset, or at the nearest one that
    /// keeps it within the text.
    pub fn set_offset(&mut self, offset: usize)
        ensures
            final(self)@ == (Window { offset: old(self)@.clamp(offset as int), ..old(self)@ }),
            final(self)@.wf(),
    {
        proof {
            use_type_invariant(&*self);
        }
        let max = self.max_offset();
        self.offset = if offset > max {
            max
        } else {
            offset
        };
    }

    /// Moves the window one character further on; at the end of the text
    /// it stays where it is.
    pub fn shift_forward(&mut self)
        ensures
            final(self)@ == old(self)@.forward(),
            final(self)@.wf(),
    {
        proof {
            use_type_invariant(&*self);
        }
        if self.offset < self.max_offset() {
            self.offset += 1;
        }
    }

    /// Moves the window one character further back; at the start of the
    /// text it stays where it is.
    pub fn shift_back(&mut self)
        ensures
            final(self)@ == old(self)@.back(),
            final(self)@.wf(),
    {
        proof {
            use_type_invariant(&*self);
        }
        if self.offset > 0 {
            self.offset -= 1;
        }
    }

    /// The characters of the visible slice.
    pub fn visible_chars(&self) -> (chars: Vec<char>)
        ensures
            chars@ == self@.visible(),
    {
        proof {
            use_type_invariant(self);
        }
        let len: usize = self.prompt_buffer.len();
        let width: usize = self.displayed_length as usize;
        let end: usize = if len - self.offset >= width {
            self.offset + width
        } else {
            len
        };
        let mut chars: Vec<char> = Vec::new();
        let mut i: usize = self.offset;
        while i < end
            invariant
                self.offset <= i <= end <= self.prompt_buffer@.len(),
                chars@ == self.prompt_buffer@.subrange(self.offset as int, i as int),
            decreases end - i,
        {
            chars.push(self.prompt_buffer[i]);
            i += 1;
            assert(chars@ =~= self.prompt_buffer@.subrange(self.offset as int, i as int));
        }
        chars
    }

    /// The visible slice as a string.
    pub fn displayed_prompt(&self) -> (s: String)
        ensures
            s@ == self@.visible(),
    {
        let chars = self.visible_chars();
        to_text(&chars)
    }

    /// The number of characters of the visible slice.
    pub fn len(&self) -> (n: u16)
        ensures
            n == self@.visible().len(),
    {
        proof {
            use_type_invariant(self);
        }
        let len: usize = self.prompt_buffer.len();
        let width: usize = self.displayed_length as usize;
        if len - self.offset >= width {
            self.displayed_length
        } else {
            (len - self.offset) as u16
        }
    }
}

} // verus!
