use typing_trainer::stats::Stats;

#[test]
fn default_is_all_zero() {
    let s = Stats::default();
    assert_eq!(s.char_count, 0);
    assert_eq!(s.seconds, 0);
    assert_eq!(s.mistakes, 0);
}

#[test]
fn add_sums_every_field() {
    let mut total = Stats { char_count: 10, seconds: 3, mistakes: 1 };
    total.add(Stats { char_count: 7, seconds: 2, mistakes: 4 });
    assert_eq!(total, Stats { char_count: 17, seconds: 5, mistakes: 5 });
}

#[test]
fn adding_zero_record_changes_nothing() {
    let mut total = Stats { char_count: 42, seconds: 11, mistakes: 3 };
    let before = total;
    total.add(Stats::default());
    assert_eq!(total, before);
    assert_eq!(total.accuracy(), before.accuracy());
    assert_eq!(total.chars_per_minute(), before.chars_per_minute());
    assert_eq!(total.words_per_minute(), before.words_per_minute());
}

#[test]
fn accuracy_is_one_without_mistakes() {
    let s = Stats { char_count: 10, seconds: 5, mistakes: 0 };
    assert_eq!(s.accuracy(), Some(1));
}

#[test]
fn accuracy_is_zero_with_only_mistakes() {
    let s = Stats { char_count: 10, seconds: 5, mistakes: 10 };
    assert_eq!(s.accuracy(), Some(0));
}

#[test]
fn accuracy_collapses_at_half() {
    let at_half = Stats { char_count: 10, seconds: 5, mistakes: 5 };
    assert_eq!(at_half.accuracy(), Some(1));
    let past_half = Stats { char_count: 10, seconds: 5, mistakes: 6 };
    assert_eq!(past_half.accuracy(), Some(0));
}

#[test]
fn accuracy_is_absent_without_characters() {
    let s = Stats { char_count: 0, seconds: 5, mistakes: 0 };
    assert_eq!(s.accuracy(), None);
}

#[test]
fn chars_per_minute_exact() {
    let s = Stats { char_count: 120, seconds: 60, mistakes: 20 };
    assert_eq!(s.chars_per_minute(), Some(100));
}

#[test]
fn chars_per_minute_rounds_half_up() {
    // (7 - 0) / 120 * 60 = 3.5, which rounds away from zero to 4.
    let s = Stats { char_count: 7, seconds: 120, mistakes: 0 };
    assert_eq!(s.chars_per_minute(), Some(4));
}

#[test]
fn chars_per_minute_negative_when_mistakes_exceed_chars() {
    // (2 - 8) / 60 * 60 = -6.
    let s = Stats { char_count: 2, seconds: 60, mistakes: 8 };
    assert_eq!(s.chars_per_minute(), Some(-6));
}

#[test]
fn speed_is_absent_without_seconds() {
    let s = Stats { char_count: 10, seconds: 0, mistakes: 0 };
    assert_eq!(s.chars_per_minute(), None);
    assert_eq!(s.words_per_minute(), None);
}

#[test]
fn words_per_minute_is_a_fifth_of_cpm() {
    let s = Stats { char_count: 100, seconds: 60, mistakes: 0 };
    assert_eq!(s.chars_per_minute(), Some(100));
    assert_eq!(s.words_per_minute(), Some(20));
}

#[test]
fn words_per_minute_rounds() {
    // cpm = 12, 12 / 5 = 2.4, which rounds to 2.
    let s = Stats { char_count: 12, seconds: 60, mistakes: 0 };
    assert_eq!(s.words_per_minute(), Some(2));
}
