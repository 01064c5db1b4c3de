use quick_input::boolean::parse_bool;
use quick_input::text::parse_char;
use quick_input::text::trim_str;
use quick_input::text::trimmed_line;

#[test]
fn booleans_ignore_case() {
    assert_eq!(parse_bool("true"), Some(true));
    assert_eq!(parse_bool("True"), Some(true));
    assert_eq!(parse_bool("TRUE"), Some(true));
    assert_eq!(parse_bool("tRuE"), Some(true));
    assert_eq!(parse_bool("false"), Some(false));
    assert_eq!(parse_bool("FaLsE"), Some(false));
}

#[test]
fn booleans_reject_everything_else() {
    assert_eq!(parse_bool("yes"), None);
    assert_eq!(parse_bool("no"), None);
    assert_eq!(parse_bool("1"), None);
    assert_eq!(parse_bool("truth"), None);
    assert_eq!(parse_bool("tru"), None);
    assert_eq!(parse_bool(""), None);
}

#[test]
fn booleans_are_trimmed_first() {
    assert_eq!(parse_bool("  true\n"), Some(true));
    assert_eq!(parse_bool(" FALSE "), Some(false));
}

#[test]
fn char_takes_the_first_character() {
    assert_eq!(parse_char("hello"), Some('h'));
    assert_eq!(parse_char("  x\n"), Some('x'));
    assert_eq!(parse_char("é!"), Some('é'));
}

#[test]
fn char_rejects_an_empty_line() {
    assert_eq!(parse_char(""), None);
    assert_eq!(parse_char("\n"), None);
    assert_eq!(parse_char("   \t "), None);
}

#[test]
fn text_is_trimmed() {
    assert_eq!(trimmed_line("  some words \n"), "some words");
    assert_eq!(trim_str("\t a \u{a0}"), "a");
    assert_eq!(trimmed_line(""), "");
    assert_eq!(trimmed_line(" \n"), "");
}
