use typing_practice::queue::{Exhausted, PromptQueue};
use typing_practice::words::{PromptLine, WordSource};

fn queue_of(words: &[&str], size: usize) -> PromptQueue {
    let source = WordSource::new(words.iter().map(|w| w.to_string()).collect());
    PromptQueue::new(source.chunks(size).unwrap())
}

#[test]
fn queue_pops_front_to_back_and_is_then_exhausted() {
    let mut queue = queue_of(&["cat", "dog", "bird"], 2);
    assert_eq!(queue.len(), 2);
    assert_eq!(queue.pop_current().unwrap().text(), "cat dog");
    assert_eq!(queue.pop_current().unwrap().text(), "bird");
    assert_eq!(queue.len(), 0);
    assert_eq!(queue.pop_current(), Err(Exhausted));
    assert_eq!(queue.pop_current(), Err(Exhausted));
}

#[test]
fn peek_shows_the_front_and_leaves_it() {
    let mut queue = queue_of(&["cat", "dog", "bird"], 1);
    assert_eq!(queue.peek_next(), "cat");
    assert_eq!(queue.peek_next(), "cat");
    assert_eq!(queue.len(), 3);
    queue.pop_current().unwrap();
    assert_eq!(queue.peek_next(), "dog");
    queue.pop_current().unwrap();
    assert_eq!(queue.peek_next(), "bird");
    queue.pop_current().unwrap();
    assert_eq!(queue.peek_next(), "");
}

#[test]
fn empty_queue_is_exhausted_at_once() {
    let mut queue = PromptQueue::new(Vec::new());
    assert_eq!(queue.len(), 0);
    assert_eq!(queue.peek_next(), "");
    assert_eq!(queue.pop_current(), Err(Exhausted));
}

#[test]
fn queue_keeps_the_order_of_its_lines() {
    let lines = vec![
        PromptLine::from_chars(vec!['1']),
        PromptLine::from_chars(vec!['2']),
        PromptLine::from_chars(vec!['3']),
        PromptLine::from_chars(vec!['4']),
    ];
    let mut queue = PromptQueue::new(lines);
    let mut seen = String::new();
    while let Ok(line) = queue.pop_current() {
        seen.push_str(&line.text());
    }
    assert_eq!(seen, "1234");
}
