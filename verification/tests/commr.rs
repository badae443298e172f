use linetools::commr::{
    check_inputs, diff, diff_lines, format_all, format_record, get_args, make_lines, run, step,
    Classification, Config, ConfigurationError, Line, Record,
};

fn strings(texts: &[&str]) -> Vec<String> {
    texts.iter().map(|t| t.to_string()).collect()
}

fn config(show1: bool, show2: bool, show3: bool, delimiter: &str) -> Config {
    Config {
        file1: "a.txt".to_string(),
        file2: "b.txt".to_string(),
        show_col1: show1,
        show_col2: show2,
        show_col3: show3,
        insensitive: false,
        delimiter: delimiter.to_string(),
    }
}

fn record(class: Classification, value: &str) -> Record {
    Record { class, value: value.to_string() }
}

#[test]
fn three_fruits_against_three_fruits() {
    let a = strings(&["apple", "banana", "cherry"]);
    let b = strings(&["banana", "cherry", "date"]);
    let records = diff(&a, &b, false);
    assert_eq!(
        records,
        vec![
            record(Classification::OnlyInA, "apple"),
            record(Classification::InBoth, "banana"),
            record(Classification::InBoth, "cherry"),
            record(Classification::OnlyInB, "date"),
        ]
    );
    let lines = run(&config(true, true, true, "\t"), &a, &b).unwrap();
    assert_eq!(lines, strings(&["apple", "\t\tbanana", "\t\tcherry", "\tdate"]));
}

#[test]
fn case_is_ignored_on_request() {
    let a = strings(&["Foo"]);
    let b = strings(&["foo"]);
    assert_eq!(diff(&a, &b, true), vec![record(Classification::InBoth, "Foo")]);
    assert_eq!(
        diff(&a, &b, false),
        vec![record(Classification::OnlyInA, "Foo"), record(Classification::OnlyInB, "foo")]
    );
}

#[test]
fn shared_line_keeps_the_spelling_of_the_first_input() {
    let a = strings(&["ALPHA", "Beta"]);
    let b = strings(&["alpha", "BETA", "gamma"]);
    assert_eq!(
        diff(&a, &b, true),
        vec![
            record(Classification::InBoth, "ALPHA"),
            record(Classification::InBoth, "Beta"),
            record(Classification::OnlyInB, "gamma"),
        ]
    );
}

#[test]
fn both_inputs_standard_input_is_refused() {
    let mut both = config(true, true, true, "\t");
    both.file1 = "-".to_string();
    both.file2 = "-".to_string();
    assert_eq!(check_inputs(&both), Err(ConfigurationError::BothStdin));
    assert_eq!(
        run(&both, &strings(&["a"]), &strings(&["a"])),
        Err(ConfigurationError::BothStdin)
    );
    assert_eq!(
        ConfigurationError::BothStdin.message(),
        "Both input files cannot be STDIN (\"-\")"
    );
}

#[test]
fn one_input_standard_input_is_accepted() {
    let mut one = config(true, true, true, "\t");
    one.file1 = "-".to_string();
    assert_eq!(check_inputs(&one), Ok(()));
    one.file1 = "a.txt".to_string();
    one.file2 = "-".to_string();
    assert_eq!(check_inputs(&one), Ok(()));
    one.file1 = "--".to_string();
    one.file2 = "-".to_string();
    assert_eq!(check_inputs(&one), Ok(()));
    assert_eq!(run(&one, &strings(&["x"]), &strings(&[])), Ok(strings(&["x"])));
}

#[test]
fn empty_first_input_gives_the_second_in_order() {
    let b = strings(&["pear", "plum", "quince"]);
    assert_eq!(
        diff(&Vec::new(), &b, false),
        vec![
            record(Classification::OnlyInB, "pear"),
            record(Classification::OnlyInB, "plum"),
            record(Classification::OnlyInB, "quince"),
        ]
    );
}

#[test]
fn empty_second_input_gives_the_first_in_order() {
    let a = strings(&["pear", "plum"]);
    assert_eq!(
        diff(&a, &Vec::new(), true),
        vec![record(Classification::OnlyInA, "pear"), record(Classification::OnlyInA, "plum")]
    );
}

#[test]
fn two_empty_inputs_give_nothing() {
    assert_eq!(diff(&Vec::new(), &Vec::new(), false), Vec::<Record>::new());
    assert_eq!(
        run(&config(true, true, true, "\t"), &Vec::new(), &Vec::new()),
        Ok(Vec::<String>::new())
    );
}

#[test]
fn duplicates_are_matched_one_to_one() {
    let a = strings(&["a", "a", "a", "b"]);
    let b = strings(&["a", "a", "c"]);
    let records = diff(&a, &b, false);
    assert_eq!(
        records,
        vec![
            record(Classification::InBoth, "a"),
            record(Classification::InBoth, "a"),
            record(Classification::OnlyInA, "a"),
            record(Classification::OnlyInA, "b"),
            record(Classification::OnlyInB, "c"),
        ]
    );
    let both = records.iter().filter(|r| r.class == Classification::InBoth).count();
    assert_eq!(records.len(), a.len() + b.len() - both);
    let unique = records.iter().filter(|r| r.class != Classification::InBoth).count();
    assert_eq!(unique, a.len() + b.len() - 2 * both);
}

#[test]
fn records_of_sorted_inputs_come_out_sorted() {
    let a = strings(&["", "ant", "bee", "bee", "cat", "zebra"]);
    let b = strings(&["ant", "antelope", "bee", "dog"]);
    let records = diff(&a, &b, false);
    for pair in records.windows(2) {
        assert!(pair[0].value <= pair[1].value);
    }
    assert_eq!(records.len(), 8);
}

#[test]
fn order_is_by_code_point() {
    let a = strings(&["Z", "a", "é"]);
    let b = strings(&["a", "z", "é"]);
    assert_eq!(
        diff(&a, &b, false),
        vec![
            record(Classification::OnlyInA, "Z"),
            record(Classification::InBoth, "a"),
            record(Classification::OnlyInB, "z"),
            record(Classification::InBoth, "é"),
        ]
    );
}

#[test]
fn a_prefix_comes_first() {
    let a = strings(&["ab"]);
    let b = strings(&["abc"]);
    assert_eq!(
        diff(&a, &b, false),
        vec![record(Classification::OnlyInA, "ab"), record(Classification::OnlyInB, "abc")]
    );
    assert_eq!(
        diff(&b, &a, false),
        vec![record(Classification::OnlyInB, "ab"), record(Classification::OnlyInA, "abc")]
    );
}

#[test]
fn format_places_each_column() {
    let all = config(true, true, true, "\t");
    assert_eq!(format_record(&record(Classification::OnlyInA, "x"), &all), Some("x".to_string()));
    assert_eq!(format_record(&record(Classification::OnlyInB, "x"), &all), Some("\tx".to_string()));
    assert_eq!(format_record(&record(Classification::InBoth, "x"), &all), Some("\t\tx".to_string()));
}

#[test]
fn format_drops_the_placeholder_of_a_hidden_column() {
    let no_first = config(false, true, true, "\t");
    assert_eq!(format_record(&record(Classification::OnlyInA, "x"), &no_first), None);
    assert_eq!(format_record(&record(Classification::OnlyInB, "x"), &no_first), Some("x".to_string()));
    assert_eq!(format_record(&record(Classification::InBoth, "x"), &no_first), Some("\tx".to_string()));
    let no_second = config(true, false, true, "\t");
    assert_eq!(format_record(&record(Classification::OnlyInA, "x"), &no_second), Some("x".to_string()));
    assert_eq!(format_record(&record(Classification::OnlyInB, "x"), &no_second), None);
    assert_eq!(format_record(&record(Classification::InBoth, "x"), &no_second), Some("\tx".to_string()));
    let only_third = config(false, false, true, "\t");
    assert_eq!(format_record(&record(Classification::InBoth, "x"), &only_third), Some("x".to_string()));
    let no_third = config(true, true, false, "\t");
    assert_eq!(format_record(&record(Classification::InBoth, "x"), &no_third), None);
    assert_eq!(format_record(&record(Classification::OnlyInB, "x"), &no_third), Some("\tx".to_string()));
}

#[test]
fn format_with_everything_hidden_gives_nothing() {
    let none = config(false, false, false, "\t");
    assert_eq!(format_record(&record(Classification::OnlyInA, "x"), &none), None);
    assert_eq!(format_record(&record(Classification::OnlyInB, "x"), &none), None);
    assert_eq!(format_record(&record(Classification::InBoth, "x"), &none), None);
    assert_eq!(
        run(&none, &strings(&["a", "b"]), &strings(&["b", "c"])),
        Ok(Vec::<String>::new())
    );
}

#[test]
fn format_uses_the_delimiter_given() {
    let arrows = config(true, true, true, "-->");
    assert_eq!(
        format_record(&record(Classification::InBoth, "x"), &arrows),
        Some("-->-->x".to_string())
    );
    let empty = config(true, true, true, "");
    assert_eq!(format_record(&record(Classification::InBoth, "x"), &empty), Some("x".to_string()));
    assert_eq!(format_record(&record(Classification::OnlyInB, ""), &arrows), Some("-->".to_string()));
}

#[test]
fn hidden_columns_do_not_change_what_is_compared() {
    let a = strings(&["a", "b", "d"]);
    let b = strings(&["b", "c"]);
    assert_eq!(run(&config(false, true, true, ","), &a, &b), Ok(strings(&[",b", "c"])));
    assert_eq!(run(&config(true, false, true, ","), &a, &b), Ok(strings(&["a", ",b", "d"])));
    assert_eq!(run(&config(true, true, false, ","), &a, &b), Ok(strings(&["a", ",c", "d"])));
}

#[test]
fn run_ignores_case_where_the_configuration_says_so() {
    let mut folded = config(true, true, true, "\t");
    folded.insensitive = true;
    let a = strings(&["Apple", "BANANA"]);
    let b = strings(&["apple", "cherry"]);
    assert_eq!(run(&folded, &a, &b), Ok(strings(&["\t\tApple", "BANANA", "\tcherry"])));
}

#[test]
fn step_says_what_to_emit_and_which_input_moves() {
    let ant = Line::new("ant".to_string(), false);
    let bee = Line::new("bee".to_string(), false);
    let s = step(Some(&ant), Some(&bee));
    assert_eq!(s.record, Some(record(Classification::OnlyInA, "ant")));
    assert!(s.advance_a && !s.advance_b);
    let s = step(Some(&bee), Some(&ant));
    assert_eq!(s.record, Some(record(Classification::OnlyInB, "ant")));
    assert!(!s.advance_a && s.advance_b);
    let s = step(Some(&ant), Some(&ant));
    assert_eq!(s.record, Some(record(Classification::InBoth, "ant")));
    assert!(s.advance_a && s.advance_b);
    let s = step(Some(&ant), None);
    assert_eq!(s.record, Some(record(Classification::OnlyInA, "ant")));
    assert!(s.advance_a && !s.advance_b);
    let s = step(None, Some(&bee));
    assert_eq!(s.record, Some(record(Classification::OnlyInB, "bee")));
    assert!(!s.advance_a && s.advance_b);
    let s = step(None, None);
    assert_eq!(s.record, None);
    assert!(!s.advance_a && !s.advance_b);
}

#[test]
fn a_line_is_compared_by_its_lowercase_form_on_request() {
    let folded = Line::new("MiXed Case".to_string(), true);
    assert_eq!(folded.text, "MiXed Case");
    assert_eq!(folded.key, "mixed case");
    let plain = Line::new("MiXed Case".to_string(), false);
    assert_eq!(plain.text, "MiXed Case");
    assert_eq!(plain.key, "MiXed Case");
}

#[test]
fn arguments_become_a_configuration() {
    let made = get_args(
        "one".to_string(),
        "two".to_string(),
        true,
        false,
        true,
        true,
        ":".to_string(),
    );
    assert_eq!(
        made,
        Config {
            file1: "one".to_string(),
            file2: "two".to_string(),
            show_col1: false,
            show_col2: true,
            show_col3: false,
            insensitive: true,
            delimiter: ":".to_string(),
        }
    );
}

#[test]
fn lines_are_made_of_texts() {
    let texts = strings(&["Ab", "cD"]);
    assert_eq!(
        make_lines(&texts, true),
        vec![
            Line { text: "Ab".to_string(), key: "ab".to_string() },
            Line { text: "cD".to_string(), key: "cd".to_string() },
        ]
    );
    assert_eq!(
        make_lines(&texts, false),
        vec![
            Line { text: "Ab".to_string(), key: "Ab".to_string() },
            Line { text: "cD".to_string(), key: "cD".to_string() },
        ]
    );
    assert_eq!(make_lines(&Vec::new(), true), Vec::<Line>::new());
}

#[test]
fn lines_are_compared_by_their_keys() {
    let a = vec![
        Line { text: "first".to_string(), key: "1".to_string() },
        Line { text: "third".to_string(), key: "3".to_string() },
    ];
    let b = vec![
        Line { text: "one".to_string(), key: "1".to_string() },
        Line { text: "two".to_string(), key: "2".to_string() },
    ];
    assert_eq!(
        diff_lines(&a, &b),
        vec![
            record(Classification::InBoth, "first"),
            record(Classification::OnlyInB, "two"),
            record(Classification::OnlyInA, "third"),
        ]
    );
}

#[test]
fn records_without_a_line_are_left_out() {
    let records = vec![
        record(Classification::OnlyInA, "a"),
        record(Classification::InBoth, "b"),
        record(Classification::OnlyInB, "c"),
    ];
    assert_eq!(format_all(&records, &config(true, false, true, ";")), strings(&["a", ";b"]));
    assert_eq!(format_all(&Vec::new(), &config(true, true, true, ";")), Vec::<String>::new());
}

#[test]
fn lines_and_records_are_copied_whole() {
    let line = Line::new("Text".to_string(), true);
    assert_eq!(line.clone(), line);
    let made = record(Classification::InBoth, "x");
    assert_eq!(made.clone(), made);
}
