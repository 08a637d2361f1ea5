use line_names_checker::check::{check, ErrorCode, Mismatch};
use line_names_checker::line_names::LineNames;
use line_names_checker::opt::{Opt, Plan};
use line_names_checker::parse::{parse_file, parse_lines};

fn record(number: usize, names: &[&str]) -> LineNames {
    let mut r = LineNames::new(number);
    for n in names {
        r.add_name(n);
    }
    r
}

#[test]
fn answer_longer_gives_less_than_answer() {
    let yours = vec![record(1, &["a"])];
    let answer = vec![record(1, &["a"]), record(2, &["b"])];
    assert_eq!(
        check(&yours, &answer),
        Err(Mismatch { code: ErrorCode::LessThanAnswer, line: 2 })
    );
}

#[test]
fn yours_longer_gives_more_than_answer() {
    let yours = vec![record(1, &["a"]), record(2, &["b"])];
    let answer = vec![record(1, &["a"])];
    assert_eq!(
        check(&yours, &answer),
        Err(Mismatch { code: ErrorCode::MoreThanAnswer, line: 2 })
    );
}

#[test]
fn different_names_give_wrong_line() {
    let yours = vec![record(1, &["a"])];
    let answer = vec![record(1, &["x"])];
    assert_eq!(check(&yours, &answer), Err(Mismatch { code: ErrorCode::WrongLine, line: 1 }));
}

#[test]
fn first_mismatch_only() {
    let yours = vec![record(1, &["a"]), record(2, &["b"]), record(3, &["c"])];
    let answer = vec![record(1, &["a"]), record(2, &["z"])];
    assert_eq!(check(&yours, &answer), Err(Mismatch { code: ErrorCode::WrongLine, line: 2 }));
}

#[test]
fn identical_up_to_name_order_passes() {
    let yours = vec![record(1, &["a", "b"]), record(4, &["c", "d", "e"])];
    let answer = vec![record(1, &["b", "a"]), record(4, &["e", "c", "d"])];
    assert_eq!(check(&yours, &answer), Ok(()));
}

#[test]
fn empty_files_pass() {
    assert_eq!(check(&vec![], &vec![]), Ok(()));
    assert_eq!(
        check(&vec![], &vec![record(1, &["a"])]),
        Err(Mismatch { code: ErrorCode::LessThanAnswer, line: 1 })
    );
}

#[test]
fn file_parses_every_line() {
    let v = parse_file("1 : a, b\n2 : c\n", true).ok().unwrap();
    assert_eq!(v.len(), 2);
    assert_eq!(v[0].number, 1);
    assert_eq!(v[1].names, vec!["c".to_string()]);
}

#[test]
fn file_stops_at_first_bad_line() {
    let e = parse_file("1 : a\n2:b\n3 : x-y\n", true).err().unwrap();
    assert_eq!(e.index, 2);
    assert_eq!(e.line, "2:b");
    assert_eq!(e.error, "Got 0 spaces before colon but expected 1");
    assert_eq!(e.to_text(), "Line 2: '2:b'\nGot 0 spaces before colon but expected 1");
}

#[test]
fn lines_are_parsed_in_order() {
    let lines = vec!["1:a".to_string(), "2 : b".to_string(), "3:".to_string()];
    let e = parse_lines(&lines, false).err().unwrap();
    assert_eq!(e.index, 3);
    assert_eq!(e.error, "Unexpected End-Of-Line before a function name");
    assert_eq!(parse_lines(&lines[..2].to_vec(), false).ok().unwrap().len(), 2);
}

fn opt(format_only: bool, standard: Option<&str>) -> Opt {
    Opt {
        format_only,
        standard: standard.map(|s| s.to_string()),
        strict: false,
        file: "out.txt".to_string(),
    }
}

#[test]
fn format_only_never_needs_the_answer() {
    assert_eq!(opt(true, None).plan(), Plan::FormatOnly { ignored_answer: false });
    assert_eq!(opt(true, Some("ans.txt")).plan(), Plan::FormatOnly { ignored_answer: true });
}

#[test]
fn compare_needs_the_answer() {
    assert_eq!(opt(false, Some("ans.txt")).plan(), Plan::Compare);
    assert_eq!(opt(false, None).plan(), Plan::MissingAnswer);
}
