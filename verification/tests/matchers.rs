use twig::lexer::matchers::Matchers;
use twig::lexer::options::Options;

fn matchers() -> Matchers {
    let options = Options::default();
    Matchers::new(&options, &Vec::new())
}

#[test]
fn should_match_full_str_with_first_esc_char() {
    assert_eq!((0, 2), matchers().match_regex_dq_string_part("##"))
}

#[test]
fn should_match_empty_str() {
    assert_eq!((0, 0), matchers().match_regex_dq_string_part(""))
}

#[test]
fn should_match_up_to_str_end() {
    assert_eq!((0, 2), matchers().match_regex_dq_string_part(r#"##"foo"#))
}

#[test]
fn should_skip_escaped_str_end() {
    assert_eq!((0, 7), matchers().match_regex_dq_string_part(r#"##\"foo"#))
}

#[test]
fn should_match_up_to_interpolation_start() {
    assert_eq!((0, 3), matchers().match_regex_dq_string_part(r#"aa #{ foo"#))
}

#[test]
fn should_skip_escaped_interpolation_start() {
    assert_eq!((0, 10), matchers().match_regex_dq_string_part(r#"aa \#{ foo"#))
}

#[test]
fn hash_before_interpolation_start_ends_the_part() {
    assert_eq!((0, 1), matchers().match_regex_dq_string_part("##{"));
}

#[test]
fn hash_does_not_escape_the_closing_quote() {
    assert_eq!((0, 1), matchers().match_regex_dq_string_part("#\"x"));
}

#[test]
fn part_end_is_a_byte_offset() {
    assert_eq!((0, 2), matchers().match_regex_dq_string_part("é\""));
    assert_eq!((0, 4), matchers().match_regex_dq_string_part("a€\"b"));
}

#[test]
fn lone_backslash_at_the_end_is_not_taken() {
    assert_eq!((0, 2), matchers().match_regex_dq_string_part("ab\\"));
}

#[test]
fn strings_compare_by_their_characters() {
    assert!(twig::chars::str_eq("ab", "ab"));
    assert!(!twig::chars::str_eq("ab", "abc"));
    assert!(!twig::chars::str_eq("é", "e"));
    assert!(twig::chars::str_eq("", ""));
}
