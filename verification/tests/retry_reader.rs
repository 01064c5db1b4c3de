use quick_input::messages::choose_message;
use quick_input::messages::default_message;
use quick_input::reader::parse_line;
use quick_input::reader::scan_lines;
use quick_input::reader::Kind;
use quick_input::reader::Value;

fn lines(ls: &[&str]) -> Vec<String> {
    ls.iter().map(|s| s.to_string()).collect()
}

#[test]
fn a_valid_first_line_is_accepted_at_once() {
    let input = lines(&["255\n"]);
    assert_eq!(scan_lines(Kind::U8, &input), Some((1, Value::U8(255))));
}

#[test]
fn the_reader_consumes_exactly_the_invalid_prefix() {
    let input = lines(&["abc\n", "256\n", " \n", "255\n", "7\n"]);
    assert_eq!(scan_lines(Kind::U8, &input), Some((4, Value::U8(255))));
}

#[test]
fn the_reader_retries_forever_without_a_valid_line() {
    let input = lines(&["abc\n", "yes\n", "2\n"]);
    assert_eq!(scan_lines(Kind::Bool, &input), None);
}

#[test]
fn every_kind_dispatches_to_its_own_reader() {
    assert_eq!(parse_line(Kind::I8, "-5"), Some(Value::I8(-5)));
    assert_eq!(parse_line(Kind::I16, "-5"), Some(Value::I16(-5)));
    assert_eq!(parse_line(Kind::I32, "-5"), Some(Value::I32(-5)));
    assert_eq!(parse_line(Kind::I64, "-5"), Some(Value::I64(-5)));
    assert_eq!(parse_line(Kind::I128, "-5"), Some(Value::I128(-5)));
    assert_eq!(parse_line(Kind::Isize, "-5"), Some(Value::Isize(-5)));
    assert_eq!(parse_line(Kind::U8, "5"), Some(Value::U8(5)));
    assert_eq!(parse_line(Kind::U16, "5"), Some(Value::U16(5)));
    assert_eq!(parse_line(Kind::U32, "5"), Some(Value::U32(5)));
    assert_eq!(parse_line(Kind::U64, "5"), Some(Value::U64(5)));
    assert_eq!(parse_line(Kind::U128, "5"), Some(Value::U128(5)));
    assert_eq!(parse_line(Kind::Usize, "5"), Some(Value::Usize(5)));
    assert_eq!(
        parse_line(Kind::F32, "1,5"),
        Some(Value::FloatText("1.5".to_string()))
    );
    assert_eq!(
        parse_line(Kind::F64, "1,5"),
        Some(Value::FloatText("1.5".to_string()))
    );
    assert_eq!(parse_line(Kind::Bool, "TRUE"), Some(Value::Bool(true)));
    assert_eq!(parse_line(Kind::Char, "hello"), Some(Value::Char('h')));
    assert_eq!(
        parse_line(Kind::Text, " a b \n"),
        Some(Value::Text("a b".to_string()))
    );
    assert_eq!(
        parse_line(Kind::RawText, " a b \n"),
        Some(Value::Text(" a b \n".to_string()))
    );
}

#[test]
fn text_never_retries() {
    let input = lines(&["\n", "x\n"]);
    assert_eq!(
        scan_lines(Kind::Text, &input),
        Some((1, Value::Text(String::new())))
    );
    assert_eq!(
        scan_lines(Kind::RawText, &input),
        Some((1, Value::Text("\n".to_string())))
    );
}

#[test]
fn negative_input_retries_on_unsigned_kinds() {
    let input = lines(&["-5\n", "5\n"]);
    assert_eq!(scan_lines(Kind::U32, &input), Some((2, Value::U32(5))));
    assert_eq!(scan_lines(Kind::I32, &input), Some((1, Value::I32(-5))));
}

#[test]
fn a_custom_message_replaces_the_default() {
    assert_eq!(choose_message(Some("X"), "fallback"), "X");
    assert_eq!(choose_message(None, "fallback"), "fallback");
}

#[test]
fn each_kind_names_its_default_message() {
    assert_eq!(
        default_message(Kind::I32),
        "Please enter a valid number (32 bits)."
    );
    assert_eq!(
        default_message(Kind::U8),
        "Please enter a valid positive number (8 bits)."
    );
    assert_eq!(
        default_message(Kind::Usize),
        "Please enter a valid positive number (32/64 bits)."
    );
    assert_eq!(
        default_message(Kind::F64),
        "Please enter a valid real number (64 bits)."
    );
    assert_eq!(
        default_message(Kind::Bool),
        "Please enter a valid boolean value (true / false)."
    );
    assert_eq!(default_message(Kind::Char), "");
}

#[test]
fn the_displayed_message_is_exactly_one_of_the_two() {
    let fallback = default_message(Kind::I32);
    assert_eq!(choose_message(None, fallback), fallback);
    assert_eq!(choose_message(Some("X"), fallback), "X");
}
