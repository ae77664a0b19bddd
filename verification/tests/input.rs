use crossterm::style::Color;
use std::collections::VecDeque;
use typing_practice::input::{match_input, matches_prefix, Input, Verdict};

fn chars(text: &str) -> Vec<char> {
    text.chars().collect()
}

fn typed(text: &str) -> VecDeque<char> {
    text.chars().collect()
}

#[test]
fn input_keeps_its_character() {
    assert_eq!(Input::new('x').value(), 'x');
    assert_eq!(Input::new('é').value(), 'é');
}

#[test]
fn output_color_is_green_for_a_match_and_red_otherwise() {
    assert_eq!(Input::new('a').output_color('a'), Color::Green);
    assert_eq!(Input::new('a').output_color('b'), Color::Red);
    assert_eq!(Input::new('a').output_color('A'), Color::Red);
}

#[test]
fn verdicts_have_their_colours() {
    assert_eq!(Verdict::Untyped.color(), Color::Grey);
    assert_eq!(Verdict::Correct.color(), Color::Green);
    assert_eq!(Verdict::Incorrect.color(), Color::Red);
}

#[test]
fn verdict_of_one_character() {
    assert_eq!(Input::new('a').verdict('a'), Verdict::Correct);
    assert_eq!(Input::new('a').verdict('b'), Verdict::Incorrect);
}

#[test]
fn verdicts_cover_the_whole_target() {
    let verdicts = match_input(&chars("cat"), &typed("ca"));
    assert_eq!(
        verdicts,
        vec![('c', Verdict::Correct), ('a', Verdict::Correct), ('t', Verdict::Untyped)]
    );
}

#[test]
fn verdict_pairs_carry_the_target_character() {
    let verdicts = match_input(&chars("cat"), &typed("cx"));
    assert_eq!(
        verdicts,
        vec![('c', Verdict::Correct), ('a', Verdict::Incorrect), ('t', Verdict::Untyped)]
    );
}

#[test]
fn nothing_typed_is_all_untyped() {
    let verdicts = match_input(&chars("ab"), &typed(""));
    assert_eq!(verdicts, vec![('a', Verdict::Untyped), ('b', Verdict::Untyped)]);
}

#[test]
fn verdicts_are_as_long_as_the_target_whatever_is_typed() {
    for target in ["", "a", "abc", "hello world"] {
        for input in ["", "a", "abcd", "hello world and more"] {
            let verdicts = match_input(&chars(target), &typed(input));
            assert_eq!(verdicts.len(), target.chars().count());
            for (i, (c, verdict)) in verdicts.iter().enumerate() {
                assert_eq!(*c, chars(target)[i]);
                assert_eq!(*verdict == Verdict::Untyped, i >= input.chars().count());
            }
        }
    }
}

#[test]
fn matching_twice_gives_the_same_verdicts() {
    let target = chars("target");
    let input = typed("tarxet");
    assert_eq!(match_input(&target, &input), match_input(&target, &input));
}

#[test]
fn correct_prefix_is_recognised() {
    assert!(matches_prefix(&chars("cat"), &typed("")));
    assert!(matches_prefix(&chars("cat"), &typed("ca")));
    assert!(matches_prefix(&chars("cat"), &typed("cat")));
    assert!(!matches_prefix(&chars("cat"), &typed("cx")));
    assert!(!matches_prefix(&chars("cat"), &typed("xa")));
    assert!(!matches_prefix(&chars("cat"), &typed("cats")));
    assert!(!matches_prefix(&chars(""), &typed("a")));
}
