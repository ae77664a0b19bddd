use typing_practice::config::ConfigError;
use typing_practice::text::{to_chars, to_text};
use typing_practice::words::{append_chars, PromptLine, WordSource};

fn source(words: &[&str]) -> WordSource {
    WordSource::new(words.iter().map(|w| w.to_string()).collect())
}

fn texts(lines: &[PromptLine]) -> Vec<String> {
    lines.iter().map(|line| line.text()).collect()
}

#[test]
fn chunks_of_two_from_three_words() {
    let lines = source(&["cat", "dog", "bird"]).chunks(2).unwrap();
    assert_eq!(texts(&lines), vec!["cat dog", "bird"]);
}

#[test]
fn chunks_of_an_exact_multiple_are_all_full() {
    let lines = source(&["a", "b", "c", "d"]).chunks(2).unwrap();
    assert_eq!(texts(&lines), vec!["a b", "c d"]);
}

#[test]
fn chunks_count_is_rounded_up_and_order_is_kept() {
    let lines = source(&["w0", "w1", "w2", "w3", "w4", "w5", "w6"]).chunks(3).unwrap();
    assert_eq!(lines.len(), 3);
    assert_eq!(texts(&lines), vec!["w0 w1 w2", "w3 w4 w5", "w6"]);
}

#[test]
fn chunks_of_one_word_each() {
    let lines = source(&["cat", "dog"]).chunks(1).unwrap();
    assert_eq!(texts(&lines), vec!["cat", "dog"]);
}

#[test]
fn chunk_larger_than_the_source_is_one_line() {
    let lines = source(&["cat", "dog"]).chunks(10).unwrap();
    assert_eq!(texts(&lines), vec!["cat dog"]);
}

#[test]
fn chunks_of_an_empty_source_are_none() {
    let lines = source(&[]).chunks(3).unwrap();
    assert!(lines.is_empty());
}

#[test]
fn chunk_size_zero_is_refused() {
    assert_eq!(source(&["cat"]).chunks(0), Err(ConfigError::ZeroChunkSize));
    assert_eq!(source(&[]).chunks(0), Err(ConfigError::ZeroChunkSize));
}

#[test]
fn empty_token_is_a_word_of_no_characters() {
    let words = source(&["a", "", "b"]);
    assert_eq!(words.len(), 3);
    assert_eq!(texts(&words.chunks(3).unwrap()), vec!["a  b"]);
    assert_eq!(texts(&words.chunks(1).unwrap()), vec!["a", "", "b"]);
}

#[test]
fn wrap_packs_words_greedily() {
    let lines = source(&["the", "quick", "brown", "fox"]).wrap(9).unwrap();
    assert_eq!(texts(&lines), vec!["the quick ", "brown fox "]);
}

#[test]
fn wrap_breaks_before_the_word_that_does_not_fit() {
    let lines = source(&["the", "quick", "brown", "fox"]).wrap(8).unwrap();
    assert_eq!(texts(&lines), vec!["the ", "quick ", "brown ", "fox "]);
}

#[test]
fn wrap_puts_an_overlong_word_alone_on_its_line() {
    let lines = source(&["a", "b", "elephant", "c"]).wrap(3).unwrap();
    assert_eq!(texts(&lines), vec!["a b ", "elephant ", "c "]);
}

#[test]
fn wrap_wide_enough_gives_one_line() {
    let lines = source(&["cat", "dog", "bird"]).wrap(100).unwrap();
    assert_eq!(texts(&lines), vec!["cat dog bird "]);
}

#[test]
fn wrap_lines_stay_within_the_width_before_the_trailing_space() {
    let words = ["it", "was", "the", "best", "of", "times", "it", "was", "the", "worst"];
    for width in 5..20usize {
        let lines = source(&words).wrap(width).unwrap();
        let mut rebuilt: Vec<String> = Vec::new();
        for line in &lines {
            let text = line.text();
            assert!(text.ends_with(' '));
            assert!(line.len() - 1 <= width);
            rebuilt.extend(text.split_whitespace().map(|w| w.to_string()));
        }
        assert_eq!(rebuilt, words.iter().map(|w| w.to_string()).collect::<Vec<String>>());
    }
}

#[test]
fn wrap_of_an_empty_source_is_empty() {
    assert!(source(&[]).wrap(10).unwrap().is_empty());
}

#[test]
fn wrap_width_zero_is_refused() {
    assert_eq!(source(&["cat"]).wrap(0), Err(ConfigError::ZeroVisibleWidth));
}

#[test]
fn joined_puts_single_spaces_between_words() {
    let words = source(&["cat", "dog", "bird"]);
    assert_eq!(to_text(&words.joined()), "cat dog bird");
    assert_eq!(to_text(&source(&[]).joined()), "");
}

#[test]
fn source_reports_its_size() {
    assert!(source(&[]).is_empty());
    assert_eq!(source(&[]).len(), 0);
    assert!(!source(&["cat"]).is_empty());
    assert_eq!(source(&["cat", "dog"]).len(), 2);
}

#[test]
fn prompt_line_keeps_its_text() {
    let line = PromptLine::from_chars(vec!['h', 'é', 'y']);
    assert_eq!(line.len(), 3);
    assert_eq!(line.text(), "héy");
    assert_eq!(line.chars(), &vec!['h', 'é', 'y']);
    assert_eq!(line.to_chars(), vec!['h', 'é', 'y']);
}

#[test]
fn text_converts_both_ways() {
    assert_eq!(to_chars("añb"), vec!['a', 'ñ', 'b']);
    assert_eq!(to_chars(""), Vec::<char>::new());
    assert_eq!(to_text(&vec!['a', 'ñ', 'b']), "añb");
    assert_eq!(to_text(&to_chars("round trip")), "round trip");
}

#[test]
fn append_chars_extends_at_the_end() {
    let mut out = vec!['a'];
    append_chars(&mut out, &vec!['b', 'c']);
    assert_eq!(out, vec!['a', 'b', 'c']);
    append_chars(&mut out, &Vec::new());
    assert_eq!(out, vec!['a', 'b', 'c']);
}
