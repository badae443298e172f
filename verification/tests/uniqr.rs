use linetools::uniqr::{format_group, get_args, run, same_line, Config, Run};

fn strings(texts: &[&str]) -> Vec<String> {
    texts.iter().map(|t| t.to_string()).collect()
}

fn config(count: bool) -> Config {
    Config { in_file: "-".to_string(), out_file: None, count }
}

#[test]
fn runs_are_reported_once() {
    let lines = strings(&["a\n", "a\n", "b\n", "a\n", "a\n", "a\n"]);
    assert_eq!(run(&config(false), &lines), strings(&["a\n", "b\n", "a\n"]));
    assert_eq!(run(&config(true), &lines), strings(&["   2 a\n", "   1 b\n", "   3 a\n"]));
}

#[test]
fn no_lines_give_nothing() {
    assert_eq!(run(&config(false), &Vec::new()), Vec::<String>::new());
    assert_eq!(run(&config(true), &Vec::new()), Vec::<String>::new());
}

#[test]
fn lines_are_compared_without_their_ends() {
    let lines = strings(&["a\r\n", "a\n", "a  \n", "a"]);
    assert_eq!(run(&config(true), &lines), strings(&["   4 a\r\n"]));
    let lines = strings(&["a\n", " a\n"]);
    assert_eq!(run(&config(false), &lines), strings(&["a\n", " a\n"]));
}

#[test]
fn blank_lines_at_the_start_join_the_empty_run() {
    let lines = strings(&["\n", "\n", "a\n"]);
    assert_eq!(run(&config(true), &lines), strings(&["   2 ", "   1 a\n"]));
    assert_eq!(run(&config(false), &lines), strings(&["", "a\n"]));
}

#[test]
fn wide_counts_are_not_cut() {
    assert_eq!(format_group(0, "x\n", true), None);
    assert_eq!(format_group(0, "x\n", false), None);
    assert_eq!(format_group(7, "x\n", false), Some("x\n".to_string()));
    assert_eq!(format_group(7, "x\n", true), Some("   7 x\n".to_string()));
    assert_eq!(format_group(1234, "x\n", true), Some("1234 x\n".to_string()));
    assert_eq!(format_group(12345, "x\n", true), Some("12345 x\n".to_string()));
}

#[test]
fn same_line_ignores_trailing_white_space_only() {
    assert!(same_line("a\n", "a"));
    assert!(same_line("a \t\r\n", "a\u{3000}"));
    assert!(same_line("", " \n"));
    assert!(!same_line("a", "A"));
    assert!(!same_line(" a", "a"));
    assert!(!same_line("a b", "ab"));
}

#[test]
fn a_run_is_fed_line_by_line() {
    let mut current = Run::new();
    assert_eq!(current, Run { previous: String::new(), count: 0 });
    assert_eq!(current.feed("a\n".to_string(), true), None);
    assert_eq!(current, Run { previous: "a\n".to_string(), count: 1 });
    assert_eq!(current.feed("a".to_string(), true), None);
    assert_eq!(current, Run { previous: "a\n".to_string(), count: 2 });
    assert_eq!(current.feed("b\n".to_string(), true), Some("   2 a\n".to_string()));
    assert_eq!(current, Run { previous: "b\n".to_string(), count: 1 });
    assert_eq!(current.finish(false), Some("b\n".to_string()));
    assert_eq!(Run::new().finish(true), None);
}

#[test]
fn arguments_default_to_standard_input() {
    assert_eq!(
        get_args(None, None, false),
        Config { in_file: "-".to_string(), out_file: None, count: false }
    );
    assert_eq!(
        get_args(Some("in".to_string()), Some("out".to_string()), true),
        Config { in_file: "in".to_string(), out_file: Some("out".to_string()), count: true }
    );
}
