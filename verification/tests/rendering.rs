use rcat::config::{is_stdin, Config, ConfigError};
use rcat::decimal::decimal;
use rcat::render::{render, render_into};
use rcat::run::{run, warning_text, Input};

fn strings(items: &[&str]) -> Vec<String> {
    items.iter().map(|s| s.to_string()).collect()
}

fn config(number: bool, nonblank: bool) -> Config {
    Config::new(strings(&["input"]), number, nonblank).unwrap()
}

fn opened(name: &str, lines: &[&str]) -> Input {
    Input { name: name.to_string(), opened: Ok(strings(lines)) }
}

fn unopened(name: &str, reason: &str) -> Input {
    Input { name: name.to_string(), opened: Err(reason.to_string()) }
}

#[test]
fn nonblank_numbering_skips_the_empty_line() {
    let report = run(&config(false, true), &vec![opened("f", &["a", "", "b"])]);
    assert_eq!(report.output, "\t1 a\n\n\t2 b\n");
    assert!(report.warnings.is_empty());
}

#[test]
fn numbering_all_lines_of_two() {
    let report = run(&config(true, false), &vec![opened("f", &["a", "b"])]);
    assert_eq!(report.output, "\t1 a\n\t2 b\n");
}

#[test]
fn no_numbering_passes_the_line_through() {
    let report = run(&config(false, false), &vec![opened("f", &["hello"])]);
    assert_eq!(report.output, "hello\n");
}

#[test]
fn missing_second_input_warns_and_keeps_the_first() {
    let inputs = vec![opened("present", &["x"]), unopened("absent", "No such file or directory (os error 2)")];
    let report = run(&config(false, false), &inputs);
    assert_eq!(report.output, "x\n");
    assert_eq!(report.warnings.len(), 1);
    assert_eq!(report.warnings[0], "Failed to open absent: No such file or directory (os error 2)");
    assert!(report.warnings[0].contains("absent"));
}

#[test]
fn missing_input_in_the_middle_keeps_the_order_of_the_others() {
    let inputs = vec![
        opened("one", &["1a", "1b"]),
        unopened("gone", "denied"),
        opened("two", &["2a"]),
        unopened("lost", "absent"),
    ];
    let report = run(&config(false, false), &inputs);
    assert_eq!(report.output, "1a\n1b\n2a\n");
    assert_eq!(report.warnings, strings(&["Failed to open gone: denied", "Failed to open lost: absent"]));
    let only_opened = vec![opened("one", &["1a", "1b"]), opened("two", &["2a"])];
    let other = run(&config(false, false), &only_opened);
    assert_eq!(other.output, report.output);
    assert!(other.warnings.is_empty());
}

#[test]
fn no_numbering_concatenates_every_line_with_a_newline() {
    let first = ["alpha", "", "  ", "\tbeta"];
    let second = ["gamma"];
    let report = run(&config(false, false), &vec![opened("a", &first), opened("b", &second)]);
    let mut expected = String::new();
    for line in first.iter().chain(second.iter()) {
        expected.push_str(line);
        expected.push('\n');
    }
    assert_eq!(report.output, expected);
}

#[test]
fn numbering_all_counts_empty_lines_too() {
    let text = render(&config(true, false), &strings(&["a", "", "", "b"]));
    assert_eq!(text, "\t1 a\n\t2 \n\t3 \n\t4 b\n");
}

#[test]
fn numbering_all_reaches_two_digits() {
    let lines: Vec<String> = (0..12).map(|_| "x".to_string()).collect();
    let text = render(&config(true, false), &lines);
    let mut expected = String::new();
    for n in 1..=12 {
        expected.push_str(&format!("\t{} x\n", n));
    }
    assert_eq!(text, expected);
}

#[test]
fn nonblank_numbering_is_unaffected_by_empty_lines() {
    let with_blanks = render(&config(false, true), &strings(&["", "a", "", "", "b", "", "c"]));
    assert_eq!(with_blanks, "\n\t1 a\n\n\n\t2 b\n\n\t3 c\n");
    let without = render(&config(false, true), &strings(&["a", "b", "c"]));
    assert_eq!(without, "\t1 a\n\t2 b\n\t3 c\n");
}

#[test]
fn nonblank_numbering_counts_a_line_of_spaces() {
    let text = render(&config(false, true), &strings(&[" ", "", "z"]));
    assert_eq!(text, "\t1  \n\n\t2 z\n");
}

#[test]
fn numbering_starts_again_with_each_input() {
    let inputs = vec![opened("a", &["p", "q"]), opened("b", &["r"])];
    let all = run(&config(true, false), &inputs);
    assert_eq!(all.output, "\t1 p\n\t2 q\n\t1 r\n");
    let nonblank = run(&config(false, true), &inputs);
    assert_eq!(nonblank.output, "\t1 p\n\t2 q\n\t1 r\n");
}

#[test]
fn no_inputs_give_no_output() {
    let report = run(&config(true, false), &Vec::new());
    assert_eq!(report.output, "");
    assert!(report.warnings.is_empty());
}

#[test]
fn an_empty_input_gives_no_output() {
    assert_eq!(render(&config(true, false), &Vec::new()), "");
    assert_eq!(render(&config(false, true), &Vec::new()), "");
    assert_eq!(render(&config(false, false), &Vec::new()), "");
}

#[test]
fn render_into_appends_to_what_is_there() {
    let mut out = String::from("before\n");
    render_into(&config(true, false), &strings(&["l"]), &mut out);
    assert_eq!(out, "before\n\t1 l\n");
}

#[test]
fn lines_that_are_not_ascii_pass_through() {
    let text = render(&config(true, false), &strings(&["h\u{e9}llo \u{4e16}\u{754c}"]));
    assert_eq!(text, "\t1 h\u{e9}llo \u{4e16}\u{754c}\n");
}

#[test]
fn decimal_of_some_numbers() {
    assert_eq!(decimal(0), "0");
    assert_eq!(decimal(7), "7");
    assert_eq!(decimal(9), "9");
    assert_eq!(decimal(10), "10");
    assert_eq!(decimal(1234567890), "1234567890");
    assert_eq!(decimal(u64::MAX), "18446744073709551615");
    for n in [1u64, 19, 100, 999, 1000, 65536] {
        assert_eq!(decimal(n), n.to_string());
    }
}

#[test]
fn warning_names_the_input_and_the_reason() {
    assert_eq!(warning_text("nope.txt", "not found"), "Failed to open nope.txt: not found");
}

#[test]
fn only_a_single_dash_is_standard_input() {
    assert!(is_stdin("-"));
    assert!(!is_stdin(""));
    assert!(!is_stdin("--"));
    assert!(!is_stdin("a"));
    assert!(!is_stdin("-a"));
    assert!(!is_stdin("\u{2212}"));
}

#[test]
fn config_keeps_the_names_and_the_flags() {
    let made = Config::new(strings(&["a", "-", "b"]), false, true).unwrap();
    assert_eq!(made.files(), &strings(&["a", "-", "b"]));
    assert!(!made.number_lines());
    assert!(made.number_nonblank_lines());
}

#[test]
fn config_without_names_reads_standard_input() {
    let made = Config::new(Vec::new(), true, false).unwrap();
    assert_eq!(made.files(), &strings(&["-"]));
    assert!(made.number_lines());
    assert!(!made.number_nonblank_lines());
}

#[test]
fn config_refuses_both_ways_of_numbering() {
    assert!(matches!(Config::new(strings(&["a"]), true, true), Err(ConfigError::ConflictingNumbering)));
    assert!(matches!(Config::new(Vec::new(), true, true), Err(ConfigError::ConflictingNumbering)));
}
