use typing_practice::config::ConfigError;
use typing_practice::prompt::Prompt;
use typing_practice::words::WordSource;

fn source(words: &[&str]) -> WordSource {
    WordSource::new(words.iter().map(|w| w.to_string()).collect())
}

#[test]
fn window_slides_over_the_buffer() {
    let mut window = Prompt::new(&source(&["abcdefgh"]), 5).unwrap();
    assert_eq!(window.offset(), 0);
    assert_eq!(window.displayed_prompt(), "abcde");
    window.shift_forward();
    window.shift_forward();
    window.shift_forward();
    assert_eq!(window.offset(), 3);
    assert_eq!(window.displayed_prompt(), "defgh");
    window.shift_back();
    assert_eq!(window.offset(), 2);
    assert_eq!(window.displayed_prompt(), "cdefg");
}

#[test]
fn shift_forward_stops_at_the_last_full_window() {
    let mut window = Prompt::new(&source(&["abcdefgh"]), 5).unwrap();
    assert_eq!(window.max_offset(), 3);
    assert!(!window.at_end());
    for _ in 0..10 {
        window.shift_forward();
        assert!(window.offset() <= 3);
    }
    assert_eq!(window.offset(), 3);
    assert!(window.at_end());
    assert_eq!(window.displayed_prompt(), "defgh");
}

#[test]
fn shift_back_stops_at_the_start() {
    let mut window = Prompt::new(&source(&["abcdefgh"]), 5).unwrap();
    window.shift_back();
    assert_eq!(window.offset(), 0);
    window.shift_forward();
    window.shift_back();
    window.shift_back();
    assert_eq!(window.offset(), 0);
    assert_eq!(window.displayed_prompt(), "abcde");
}

#[test]
fn offset_stays_in_range_under_any_shifts() {
    let mut window = Prompt::new(&source(&["abc", "def", "ghi"]), 4).unwrap();
    let max = window.max_offset();
    assert_eq!(max, 7);
    let pattern = [true, true, false, true, true, true, true, true, true, true, true, false, false];
    for round in 0..5 {
        for (i, forward) in pattern.iter().enumerate() {
            if *forward == ((i + round) % 3 != 0) {
                window.shift_forward();
            } else {
                window.shift_back();
            }
            assert!(window.offset() <= max);
            assert_eq!(window.len(), 4);
        }
    }
}

#[test]
fn offset_is_clamped_wherever_the_window_is_put() {
    let mut window = Prompt::new(&source(&["abcdefgh"]), 5).unwrap();
    window.set_offset(2);
    assert_eq!(window.offset(), 2);
    assert_eq!(window.displayed_prompt(), "cdefg");
    window.set_offset(100);
    assert_eq!(window.offset(), 3);
    window.shift_forward();
    assert_eq!(window.offset(), 3);
    window.shift_back();
    assert_eq!(window.offset(), 2);
    window.set_offset(usize::MAX);
    assert_eq!(window.offset(), 3);
    window.set_offset(0);
    window.shift_back();
    assert_eq!(window.offset(), 0);
}

#[test]
fn text_shorter_than_the_window_is_shown_whole() {
    let mut window = Prompt::new(&source(&["abc"]), 5).unwrap();
    assert_eq!(window.displayed_prompt(), "abc");
    assert_eq!(window.len(), 3);
    assert_eq!(window.max_offset(), 0);
    assert!(window.at_end());
    window.shift_forward();
    assert_eq!(window.offset(), 0);
    assert_eq!(window.displayed_prompt(), "abc");
}

#[test]
fn window_text_is_the_words_joined_by_spaces() {
    let mut window = Prompt::new(&source(&["ab", "cd"]), 3).unwrap();
    assert_eq!(window.displayed_prompt(), "ab ");
    window.shift_forward();
    assert_eq!(window.displayed_prompt(), "b c");
    window.shift_forward();
    assert_eq!(window.displayed_prompt(), " cd");
    assert!(window.at_end());
}

#[test]
fn window_length_is_counted_in_characters() {
    let window = Prompt::new(&source(&["añb", "çd"]), 4).unwrap();
    assert_eq!(window.displayed_prompt(), "añb ");
    assert_eq!(window.len(), 4);
    assert_eq!(window.displayed_length(), 4);
    assert_eq!(window.visible_chars(), vec!['a', 'ñ', 'b', ' ']);
}

#[test]
fn window_of_width_zero_is_refused() {
    assert_eq!(Prompt::new(&source(&["abc"]), 0).err(), Some(ConfigError::ZeroVisibleWidth));
    assert_eq!(Prompt::new(&source(&[]), 0).err(), Some(ConfigError::ZeroVisibleWidth));
}

#[test]
fn window_over_no_words_is_refused() {
    assert_eq!(Prompt::new(&source(&[]), 5).err(), Some(ConfigError::EmptyWordSource));
}

#[test]
fn window_over_an_empty_token_shows_nothing() {
    let window = Prompt::new(&source(&[""]), 5).unwrap();
    assert_eq!(window.displayed_prompt(), "");
    assert_eq!(window.len(), 0);
    assert!(window.at_end());
}
