use typing_trainer::render::{default_str, green_str, red_str};

#[test]
fn green_str_wraps_in_green_escapes() {
    assert_eq!(green_str("ab"), "\u{1b}[32mab\u{1b}[0m");
}

#[test]
fn red_str_wraps_in_red_escapes() {
    assert_eq!(red_str("ab"), "\u{1b}[31mab\u{1b}[0m");
}

#[test]
fn styling_empty_text_keeps_only_the_escapes() {
    assert_eq!(green_str(""), "\u{1b}[32m\u{1b}[0m");
}

#[test]
fn default_str_takes_the_character_at_index_five() {
    assert_eq!(default_str("abcdefgh"), "f");
}

#[test]
fn default_str_keeps_short_strings_whole() {
    assert_eq!(default_str("abc"), "abc");
    assert_eq!(default_str(""), "");
}

#[test]
fn default_str_recovers_the_character_from_a_styled_string() {
    // A styled single character sits right after the five escape
    // characters, so the fallback index lands on it.
    assert_eq!(default_str(&green_str("x")), "x");
    assert_eq!(default_str(&red_str("q")), "q");
}
