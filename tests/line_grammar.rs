use line_names_checker::line_names::{LineError, LineNames};
use std::str::FromStr;

fn names_of(r: &LineNames) -> Vec<&str> {
    r.names.iter().map(|s| s.as_str()).collect()
}

fn parse_err(s: &str, strict: bool) -> LineError {
    match LineNames::parse(s, strict) {
        Ok(_) => panic!("expected an error for {s:?}"),
        Err(e) => e,
    }
}

#[test]
fn strict_line_parses() {
    let r = LineNames::parse_from_str("12 : foo, bar, baz", true).unwrap();
    assert_eq!(r.number, 12);
    assert_eq!(names_of(&r), vec!["foo", "bar", "baz"]);
}

#[test]
fn strict_single_name() {
    let r = LineNames::parse_from_str("0 : main", true).unwrap();
    assert_eq!(r.number, 0);
    assert_eq!(names_of(&r), vec!["main"]);
}

#[test]
fn lenient_extra_spaces_give_same_names() {
    let tight = LineNames::parse_from_str("7:a,b,c", false).unwrap();
    let loose = LineNames::parse_from_str("  7   :   a ,   b,c   ", false).unwrap();
    assert_eq!(loose.number, 7);
    assert_eq!(names_of(&loose), names_of(&tight));
    assert_eq!(names_of(&loose), vec!["a", "b", "c"]);
}

#[test]
fn lenient_space_inside_name_is_skipped() {
    let r = LineNames::parse_from_str("1 : fo o", false).unwrap();
    assert_eq!(names_of(&r), vec!["foo"]);
}

#[test]
fn colon_without_name_fails_both_modes() {
    assert_eq!(parse_err("3:", false), LineError::EndBeforeName);
    assert_eq!(parse_err("3:", true), LineError::SpacesBeforeColon(0));
    assert!(LineNames::parse_from_str("3:", true).is_err());
    assert!(LineNames::parse_from_str("3:", false).is_err());
}

#[test]
fn trailing_comma_fails_both_modes() {
    assert_eq!(parse_err("3 : a,", false), LineError::EndBeforeName);
    assert_eq!(parse_err("3 : a,", true), LineError::NoSpaceAfterComma);
    assert!(LineNames::parse_from_str("3 : a, ", true).is_err());
    assert_eq!(parse_err("3 : a, ", true), LineError::EndBeforeName);
}

#[test]
fn error_number_char() {
    assert_eq!(parse_err("1x : a", false), LineError::NumberChar('x'));
    assert_eq!(
        LineNames::parse_from_str("1x : a", false).err().unwrap(),
        "Unexpected char 'x' in line-number"
    );
}

#[test]
fn error_spaces_before_colon() {
    assert_eq!(parse_err("1  : a", true), LineError::SpacesBeforeColon(2));
    assert_eq!(
        LineNames::parse_from_str("1  : a", true).err().unwrap(),
        "Got 2 spaces before colon but expected 1"
    );
    assert!(LineNames::parse_from_str("1  : a", false).is_ok());
}

#[test]
fn error_no_space_after_colon() {
    assert_eq!(parse_err("1 :a", true), LineError::NoSpaceAfterColon);
    assert_eq!(parse_err("1 ", true), LineError::NoSpaceAfterColon);
    assert_eq!(
        LineNames::parse_from_str("1 :a", true).err().unwrap(),
        "Expect one space after colon"
    );
}

#[test]
fn error_empty_number() {
    assert_eq!(parse_err(" : a", true), LineError::EmptyNumber);
    assert_eq!(parse_err("", false), LineError::EmptyNumber);
    assert_eq!(
        LineNames::parse_from_str(":a", false).err().unwrap(),
        "cannot parse integer from empty string"
    );
}

#[test]
fn error_number_too_large() {
    assert_eq!(parse_err("99999999999999999999999 : a", true), LineError::NumberTooLarge);
    assert_eq!(
        LineNames::parse_from_str("99999999999999999999999:a", false).err().unwrap(),
        "number too large to fit in target type"
    );
    let max = LineNames::parse("18446744073709551615 : a", true).unwrap();
    assert_eq!(max.number, usize::MAX);
}

#[test]
fn error_comma_without_name() {
    assert_eq!(parse_err("1 : , a", true), LineError::CommaWithoutName);
    assert_eq!(parse_err("1:a,,b", false), LineError::CommaWithoutName);
    assert_eq!(
        LineNames::parse_from_str("1:,", false).err().unwrap(),
        "Got comma but expect a function name"
    );
}

#[test]
fn error_no_space_after_comma() {
    assert_eq!(parse_err("1 : a,b", true), LineError::NoSpaceAfterComma);
    assert_eq!(
        LineNames::parse_from_str("1 : a,b", true).err().unwrap(),
        "Expect space after comma"
    );
}

#[test]
fn error_too_many_spaces() {
    assert_eq!(parse_err("1 : a,  b", true), LineError::TooManySpaces);
    assert_eq!(parse_err("1 :  a", true), LineError::TooManySpaces);
    assert_eq!(
        LineNames::parse_from_str("1 : a ", true).err().unwrap(),
        "Too much spaces in function names"
    );
}

#[test]
fn error_name_char() {
    assert_eq!(parse_err("1 : a-b", true), LineError::NameChar('-'));
    assert_eq!(
        LineNames::parse_from_str("1 : a.b", false).err().unwrap(),
        "Unexpected char '.' in function names"
    );
}

#[test]
fn error_end_before_name() {
    assert_eq!(parse_err("5", false), LineError::EndBeforeName);
    assert_eq!(
        LineNames::parse_from_str("5 : ", true).err().unwrap(),
        "Unexpected End-Of-Line before a function name"
    );
}

#[test]
fn names_may_hold_underscore_digits_and_unicode_letters() {
    let r = LineNames::parse_from_str("4 : _x1, Ünïcode, 9", true).unwrap();
    assert_eq!(names_of(&r), vec!["_x1", "Ünïcode", "9"]);
}

#[test]
fn from_str_is_lenient() {
    let r = LineNames::from_str("2:a , b").unwrap();
    assert_eq!(r.number, 2);
    assert_eq!(names_of(&r), vec!["a", "b"]);
}

#[test]
fn new_and_add_name() {
    let mut r = LineNames::new(9);
    assert_eq!(r.number, 9);
    assert!(r.names.is_empty());
    r.add_name("x");
    r.add_name("y");
    assert_eq!(names_of(&r), vec!["x", "y"]);
}

#[test]
fn record_text() {
    let r = LineNames::parse_from_str("120 : b, a, c", true).unwrap();
    assert_eq!(r.to_text(), "120 : b, a, c");
    assert_eq!(LineNames::new(3).to_text(), "3 : ");
    let round = LineNames::parse_from_str(&r.to_text(), true).unwrap();
    assert!(round == r);
}

fn record(number: usize, names: &[&str]) -> LineNames {
    let mut r = LineNames::new(number);
    for n in names {
        r.add_name(n);
    }
    r
}

#[test]
fn equality_ignores_order() {
    assert!(record(5, &["a", "b"]) == record(5, &["b", "a"]));
    assert!(record(5, &["a", "b"]) != record(5, &["a", "c"]));
}

#[test]
fn equality_counts_repetitions() {
    assert!(record(5, &["a", "a", "b"]) != record(5, &["a", "b", "b"]));
    assert!(record(5, &["a", "a"]) != record(5, &["a"]));
    assert!(record(5, &["a", "b", "a"]) == record(5, &["a", "a", "b"]));
}

#[test]
fn equality_needs_same_number() {
    assert!(record(5, &["a"]) != record(6, &["a"]));
}

#[test]
fn message_of_each_error() {
    assert_eq!(LineError::SpacesBeforeColon(10).message(), "Got 10 spaces before colon but expected 1");
    assert_eq!(LineError::NameChar('#').message(), "Unexpected char '#' in function names");
}
