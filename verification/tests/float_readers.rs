use quick_input::float_text::normalize_float_line;

fn as_f64(line: &str) -> Option<f64> {
    normalize_float_line(line).map(|t| t.parse::<f64>().unwrap())
}

fn as_f32(line: &str) -> Option<f32> {
    normalize_float_line(line).map(|t| t.parse::<f32>().unwrap())
}

#[test]
fn both_separators_yield_the_same_number() {
    assert_eq!(normalize_float_line("12.3").as_deref(), Some("12.3"));
    assert_eq!(normalize_float_line("12,3").as_deref(), Some("12.3"));
    assert_eq!(as_f64("12.3"), Some(12.3));
    assert_eq!(as_f64("12,3"), Some(12.3));
    assert_eq!(as_f32("45,67"), Some(45.67f32));
}

#[test]
fn repeated_separators_are_invalid() {
    assert_eq!(normalize_float_line("1,2,3"), None);
    assert_eq!(normalize_float_line("1.2.3"), None);
    assert_eq!(normalize_float_line("1.2,3"), None);
}

#[test]
fn plain_and_signed_integers_read_as_floats() {
    assert_eq!(as_f64("42"), Some(42.0));
    assert_eq!(as_f64("-42"), Some(-42.0));
    assert_eq!(as_f64("+42"), Some(42.0));
}

#[test]
fn dot_at_either_end_keeps_the_digits() {
    assert_eq!(as_f64("5."), Some(5.0));
    assert_eq!(as_f64(".5"), Some(0.5));
    assert_eq!(as_f64("-.5"), Some(-0.5));
    assert_eq!(normalize_float_line("."), None);
    assert_eq!(normalize_float_line("-."), None);
}

#[test]
fn exponents_are_accepted() {
    assert_eq!(as_f64("1e3"), Some(1000.0));
    assert_eq!(as_f64("1.5E-3"), Some(0.0015));
    assert_eq!(as_f64("2,5e+1"), Some(25.0));
    assert_eq!(as_f64("5.e1"), Some(50.0));
}

#[test]
fn malformed_exponents_are_invalid() {
    assert_eq!(normalize_float_line("1e"), None);
    assert_eq!(normalize_float_line("1e+"), None);
    assert_eq!(normalize_float_line("e5"), None);
    assert_eq!(normalize_float_line("1e5e5"), None);
    assert_eq!(normalize_float_line("1e5.5"), None);
}

#[test]
fn words_and_empty_lines_are_invalid() {
    assert_eq!(normalize_float_line(""), None);
    assert_eq!(normalize_float_line("  \n"), None);
    assert_eq!(normalize_float_line("abc"), None);
    assert_eq!(normalize_float_line("inf"), None);
    assert_eq!(normalize_float_line("nan"), None);
    assert_eq!(normalize_float_line("1.2f"), None);
}

#[test]
fn the_line_is_trimmed_before_reading() {
    assert_eq!(normalize_float_line("  12,3 \n").as_deref(), Some("12.3"));
    assert_eq!(as_f64("\t-0.25  "), Some(-0.25));
}
