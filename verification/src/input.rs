//! Typed characters and their judgement against the target text.

use crossterm::style::Color;
use std::collections::VecDeque;
use vstd::prelude::*;

verus! {

/// The colour type of `crossterm`, with its variants as the crate declares
/// them.
#[verifier::external_type_specification]
pub struct ExColor(crossterm::style::Color);

/// How one position of the target text stands against what was typed.
#[derive(Clone, Copy, Debug, PartialEq, Eq, Structural)]
pub enum Verdict {
    /// Nothing has been typed at this position yet.
    Untyped,
    /// The typed character equals the target character.
    Correct,
    /// The typed character differs from the target character.
    Incorrect,
}

/// The colour that a character with the given verdict is painted in: grey
/// while untyped, green once typed correctly, red once typed wrongly.
pub open spec fn verdict_color(verdict: Verdict) -> Color {
    match verdict {
        Verdict::Untyped => Color::Grey,
        Verdict::Correct => Color::Green,
        Verdict::Incorrect => Color::Red,
    }
}

impl Verdict {
    /// The colour that a character with this verdict is painted in.
    pub fn color(self) -> (c: Color)
        ensures
            c == verdict_color(self),
    {
        match self {
            Verdict::Untyped => Color::Grey,
            Verdict::Correct => Color::Green,
            Verdict::Incorrect => Color::Red,
        }
    }
}

/// The verdict on a typed character at a position whose target is `should_be`.
pub open spec fn typed_verdict(typed: char, should_be: char) -> Verdict {
    if typed == should_be {
        Verdict::Correct
    } else {
        Verdict::Incorrect
    }
}

/// The verdict on position `i` of the target: untyped beyond the input,
/// otherwise by comparison of the two characters at `i`.
pub open spec fn verdict_at(target: Seq<char>, typed: Seq<char>, i: int) -> Verdict {
    if i >= typed.len() {
        Verdict::Untyped
    } else {
        typed_verdict(typed[i], target[i])
    }
}

/// Every character of the target with its verdict, in the target's order.
pub open spec fn verdicts_of(target: Seq<char>, typed: Seq<char>) -> Seq<(char, Verdict)> {
    Seq::new(target.len(), |i: int| (target[i], verdict_at(target, typed, i)))
}

/// Whether the input is no longer than the target and equals it character
/// by character.
pub open spec fn is_correct_prefix(target: Seq<char>, typed: Seq<char>) -> bool {
    &&& typed.len() <= target.len()
    &&& forall|i: int| 0 <= i < typed.len() ==> typed[i] == target[i]
}

/// The verdict sequence is as long as the target, whatever was typed, and a
/// position is untyped exactly if it lies at or beyond the end of the input.
pub proof fn lemma_verdicts_cover_target(target: Seq<char>, typed: Seq<char>)
    ensures
        verdicts_of(target, typed).len() == target.len(),
        forall|i: int|
            0 <= i < target.len() ==> ((#[trigger] verdicts_of(target, typed)[i]).1
                == Verdict::Untyped <==> i >= typed.len()),
        forall|i: int|
            0 <= i < target.len() ==> (#[trigger] verdicts_of(target, typed)[i]).0 == target[i],
{
}

/// One typed character.
#[derive(Clone, Copy, Debug)]
pub struct Input {
    input: char,
}

impl Input {
    /// The character that was typed.
    pub closed spec fn view(&self) -> char {
        self.input
    }

    pub fn new(input: char) -> (r: Self)
        ensures
            r@ == input,
    {
        Self { input }
    }

    pub fn value(&self) -> (c: char)
        ensures
            c == self@,
    {
        self.input
    }

    /// How the character stands against the target character `should_be`.
    pub fn verdict(&self, should_be: char) -> (v: Verdict)
        ensures
            v == typed_verdict(self@, should_be),
    {
        if self.input == should_be {
            Verdict::Correct
        } else {
            Verdict::Incorrect
        }
    }

    /// Green for a character that matches the target, red for one that does not.
    pub fn output_color(&self, should_be: char) -> (c: Color)
        ensures
            c == (if self@ == should_be {
                Color::Green
            } else {
                Color::Red
            }),
            c == verdict_color(typed_verdict(self@, should_be)),
    {
        if self.input == should_be {
            return Color::Green;
        }
        Color::Red
    }
}

/// Judges the input against the target: one pair for every position of the
/// target, also for those that the input has not reached.
pub fn match_input(target: &Vec<char>, typed: &VecDeque<char>) -> (verdicts: Vec<(char, Verdict)>)
    ensures
        verdicts@ == verdicts_of(target@, typed@),
{
    let mut verdicts: Vec<(char, Verdict)> = Vec::new();
    let mut i: usize = 0;
    while i < target.len()
        invariant
            i <= target@.len(),
            verdicts@ == verdicts_of(target@, typed@).subrange(0, i as int),
        decreases target@.len() - i,
    {
        let verdict = if i < typed.len() {
            Input::new(typed[i]).verdict(target[i])
        } else {
            Verdict::Untyped
        };
        verdicts.push((target[i], verdict));
        i += 1;
        assert(verdicts@ =~= verdicts_of(target@, typed@).subrange(0, i as int));
    }
    assert(verdicts@ =~= verdicts_of(target@, typed@));
    verdicts
}

/// Whether the input is a correct prefix of the target.
pub fn matches_prefix(target: &Vec<char>, typed: &VecDeque<char>) -> (b: bool)
    ensures
        b == is_correct_prefix(target@, typed@),
{
    if typed.len() > target.len() {
        return false;
    }
    let mut i: usize = 0;
    while i < typed.len()
        invariant
            i <= typed@.len() <= target@.len(),
            forall|k: int| 0 <= k < i ==> typed@[k] == target@[k],
        decreases typed@.len() - i,
    {
        if typed[i] != target[i] {
            return false;
        }
        i += 1;
    }
    true
}

} // verus!
