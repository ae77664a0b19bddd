use typing_practice::stats::{minutes_of, EntryType, Stats, StatsSnapshot};
use typing_practice::ui::Section;

fn stats_with(entries: usize, mistakes: usize, corrected: usize) -> Stats {
    let mut stats = Stats::default();
    for _ in 0..entries {
        stats.record(EntryType::Entry);
    }
    for _ in 0..mistakes {
        stats.record(EntryType::Mistake);
    }
    for _ in 0..corrected {
        stats.record(EntryType::CorrectedMistake);
    }
    stats
}

#[test]
fn new_stats_are_empty() {
    let stats = Stats::default();
    assert!(stats.entries().is_empty());
    assert_eq!(stats.count(EntryType::Entry), 0);
    assert_eq!(stats.section, Section { x: 0, y: 0 });
    assert_eq!(stats.minutes(), 0);
}

#[test]
fn section_defaults_to_the_origin() {
    assert_eq!(Section::default(), Section { x: 0, y: 0 });
}

#[test]
fn log_is_append_only_and_counted_by_kind() {
    let mut stats = Stats::default();
    stats.record(EntryType::Entry);
    stats.record(EntryType::Mistake);
    stats.record(EntryType::Entry);
    stats.record(EntryType::CorrectedMistake);
    stats.record(EntryType::Entry);
    assert_eq!(
        stats.entries(),
        &vec![
            EntryType::Entry,
            EntryType::Mistake,
            EntryType::Entry,
            EntryType::CorrectedMistake,
            EntryType::Entry
        ]
    );
    assert_eq!(stats.count(EntryType::Entry), 3);
    assert_eq!(stats.count(EntryType::Mistake), 1);
    assert_eq!(stats.count(EntryType::CorrectedMistake), 1);
}

#[test]
fn minutes_are_whole_minutes() {
    assert_eq!(minutes_of(0), 0);
    assert_eq!(minutes_of(59), 0);
    assert_eq!(minutes_of(60), 1);
    assert_eq!(minutes_of(119), 1);
    assert_eq!(minutes_of(120), 2);
    assert_eq!(minutes_of(u64::MAX), u64::MAX / 60);
}

#[test]
fn raw_wpm_counts_five_entries_as_a_word() {
    assert_eq!(stats_with(50, 0, 0).raw_wpm(2), Some(5));
    assert_eq!(stats_with(54, 0, 0).raw_wpm(2), Some(5));
    assert_eq!(stats_with(4, 0, 0).raw_wpm(1), Some(0));
    assert_eq!(stats_with(100, 7, 3).raw_wpm(1), Some(20));
}

#[test]
fn net_wpm_takes_off_the_mistakes_per_minute() {
    assert_eq!(stats_with(50, 3, 0).net_wpm(2), Some(4));
    assert_eq!(stats_with(50, 0, 9).net_wpm(2), Some(5));
    assert_eq!(stats_with(10, 8, 0).net_wpm(1), Some(-6));
}

#[test]
fn accuracy_is_the_share_of_entries_without_mistake() {
    assert_eq!(stats_with(10, 0, 0).accuracy(1), Some(1));
    assert_eq!(stats_with(10, 2, 1).accuracy(1), Some(0));
    assert_eq!(stats_with(2, 5, 0).accuracy(3), Some(-1));
    assert_eq!(stats_with(2, 3, 3).accuracy(3), Some(-2));
}

#[test]
fn metrics_are_unavailable_in_the_first_minute() {
    for entries in [1usize, 5, 100] {
        let stats = stats_with(entries, 2, 1);
        assert_eq!(stats.raw_wpm(0), None);
        assert_eq!(stats.net_wpm(0), None);
        assert_eq!(stats.accuracy(0), None);
    }
}

#[test]
fn metrics_are_unavailable_without_entries() {
    let stats = stats_with(0, 2, 1);
    assert_eq!(stats.raw_wpm(3), None);
    assert_eq!(stats.net_wpm(3), None);
    assert_eq!(stats.accuracy(3), None);
    assert_eq!(stats.raw_wpm(0), None);
}

#[test]
fn snapshot_holds_the_counts() {
    let snapshot = stats_with(3, 2, 1).snapshot();
    assert_eq!(
        snapshot,
        StatsSnapshot { entries: 3, mistakes: 2, corrected_mistakes: 1, minutes: 0 }
    );
}
