//! The queue of upcoming prompt lines, consumed front to back.

use crate::words::{line_texts, PromptLine};
use std::collections::VecDeque;
use vstd::prelude::*;

verus! {

/// The queue holds no further line: the expected end of a session.
#[derive(Clone, Copy, Debug, PartialEq, Eq, Structural)]
pub struct Exhausted;

/// The lines still to come, the next one at the front. The line that is
/// being typed has left the queue.
#[derive(Debug)]
pub struct PromptQueue {
    prompts: VecDeque<PromptLine>,
}

impl View for PromptQueue {
    type V = Seq<Seq<char>>;

    closed spec fn view(&self) -> Seq<Seq<char>> {
        line_texts(self.prompts@)
    }
}

impl PromptQueue {
    /// A queue of the given lines, the first of them at the front.
    pub fn new(lines: Vec<PromptLine>) -> (queue: PromptQueue)
        ensures
            queue@ == line_texts(lines@),
    {
        let mut lines = lines;
        let ghost all = lines@;
        let mut prompts: VecDeque<PromptLine> = VecDeque::new();
        while lines.len() > 0
            invariant
                lines@.len() <= all.len(),
                lines@ == all.subrange(0, lines@.len() as int),
                prompts@ == all.subrange(lines@.len() as int, all.len() as int),
            decreases lines@.len(),
        {
            match lines.pop() {
                Some(line) => {
                    prompts.push_front(line);
                    proof {
                        assert(lines@ =~= all.subrange(0, lines@.len() as int));
                        assert(prompts@ =~= all.subrange(lines@.len() as int, all.len() as int));
                    }
                },
                None => {},
            }
        }
        assert(prompts@ =~= all);
        PromptQueue { prompts }
    }

    /// The number of lines still to come.
    pub fn len(&self) -> (n: usize)
        ensures
            n == self@.len(),
    {
        self.prompts.len()
    }

    /// Removes the front line and returns it; `Exhausted` if none is left.
    pub fn pop_current(&mut self) -> (r: Result<PromptLine, Exhausted>)
        ensures
            r is Err <==> old(self)@.len() == 0,
            r is Err ==> final(self)@ == old(self)@,
            r is Ok ==> r->Ok_0@ == old(self)@[0] && final(self)@ == old(self)@.drop_first(),
    {
        let ghost before = self.prompts@;
        match self.prompts.pop_front() {
            Some(line) => {
                assert(self@ =~= line_texts(before).drop_first());
                Ok(line)
            },
            None => {
                assert(self@ =~= line_texts(before));
                Err(Exhausted)
            },
        }
    }

    /// The text of the front line, which stays in the queue; the empty
    /// string if none is left.
    pub fn peek_next(&self) -> (s: String)
        ensures
            s@ == (if self@.len() > 0 {
                self@[0]
            } else {
                Seq::<char>::empty()
            }),
    {
        if self.prompts.len() > 0 {
            self.prompts[0].text()
        } else {
            String::new()
        }
    }
}

} // verus!
