use linetools::wcr::{
    count, count_text, format_field, get_args, info_line, report, total_line, ArgsError, Config,
    CountError, FileInfo, Tally,
};

#[test]
fn test_count() {
    let text = "I don't want the world. I just want your half.\r\n";
    let info = count(text.as_bytes());
    assert!(info.is_ok());
    let expected = FileInfo {
        num_lines: 1,
        num_words: 10,
        num_chars: 48,
        num_bytes: 48,
    };
    assert_eq!(info.unwrap(), expected);
}

#[test]
fn test_format_field() {
    assert_eq!(format_field(1, false), "");
    assert_eq!(format_field(3, true), "       3");
    assert_eq!(format_field(10, true), "      10");
}

#[test]
fn format_field_does_not_cut_a_wide_number() {
    assert_eq!(format_field(0, true), "       0");
    assert_eq!(format_field(12345678, true), "12345678");
    assert_eq!(format_field(123456789, true), "123456789");
    assert_eq!(format_field(usize::MAX, true), usize::MAX.to_string());
}

#[test]
fn count_of_nothing_is_nothing() {
    assert_eq!(count(b""), Ok(FileInfo::default()));
    assert_eq!(
        FileInfo::default(),
        FileInfo { num_lines: 0, num_words: 0, num_bytes: 0, num_chars: 0 }
    );
}

#[test]
fn count_takes_an_open_last_line_for_a_line() {
    assert_eq!(
        count(b"one\ntwo"),
        Ok(FileInfo { num_lines: 2, num_words: 2, num_bytes: 7, num_chars: 7 })
    );
    assert_eq!(
        count(b"one\ntwo\n"),
        Ok(FileInfo { num_lines: 2, num_words: 2, num_bytes: 8, num_chars: 8 })
    );
    assert_eq!(
        count(b"\n\n\n"),
        Ok(FileInfo { num_lines: 3, num_words: 0, num_bytes: 3, num_chars: 3 })
    );
}

#[test]
fn count_tells_bytes_from_characters() {
    let text = "héllo wörld \u{3000}日本語\n";
    assert_eq!(
        count_text(text),
        FileInfo { num_lines: 1, num_words: 3, num_bytes: 27, num_chars: 17 }
    );
    assert_eq!(count(text.as_bytes()), Ok(count_text(text)));
}

#[test]
fn count_separates_words_by_any_whitespace() {
    assert_eq!(count_text("  a\tb\u{a0}c\u{2003}d  ").num_words, 4);
    assert_eq!(count_text("a").num_words, 1);
    assert_eq!(count_text(" ").num_words, 0);
    assert_eq!(count_text("a_b-c").num_words, 1);
}

#[test]
fn count_refuses_bytes_that_are_not_utf8() {
    assert_eq!(count(&[0x66, 0x6f, 0xff, 0x0a]), Err(CountError::InvalidUtf8));
    assert_eq!(count(&[0xc3]), Err(CountError::InvalidUtf8));
    assert_eq!(CountError::InvalidUtf8.message(), "stream did not contain valid UTF-8");
}

#[test]
fn totals_add_up() {
    let a = FileInfo { num_lines: 1, num_words: 2, num_bytes: 30, num_chars: 4 };
    let b = FileInfo { num_lines: 10, num_words: 20, num_bytes: 300, num_chars: 40 };
    assert!(a.can_add(&b));
    assert_eq!(
        a.add(&b),
        FileInfo { num_lines: 11, num_words: 22, num_bytes: 330, num_chars: 44 }
    );
    let big = FileInfo { num_lines: 0, num_words: 0, num_bytes: usize::MAX, num_chars: 0 };
    assert!(!big.can_add(&a));
    assert!(big.can_add(&FileInfo::default()));
}

#[test]
fn totals_take_what_fits() {
    let sum = FileInfo { num_lines: 1, num_words: 2, num_bytes: 30, num_chars: 4 };
    assert!(sum.can_take(0));
    assert!(sum.can_take(usize::MAX - 30));
    assert!(!sum.can_take(usize::MAX - 29));
    let odd = FileInfo { num_lines: 5, num_words: 2, num_bytes: 30, num_chars: 4 };
    assert!(!odd.can_take(0));
}

#[test]
fn tally_counts_character_by_character() {
    let mut tally = Tally::new();
    for (c, space) in [('a', false), ('b', false), (' ', true), ('c', false), ('\n', true)] {
        tally = tally.push(c, space);
    }
    assert_eq!(
        tally,
        Tally { newlines: 1, words: 2, chars: 5, in_word: false, open_line: false }
    );
    assert_eq!(
        tally.finish(5),
        FileInfo { num_lines: 1, num_words: 2, num_bytes: 5, num_chars: 5 }
    );
    let open = tally.push('d', false);
    assert_eq!(
        open.finish(6),
        FileInfo { num_lines: 2, num_words: 3, num_bytes: 6, num_chars: 6 }
    );
}

fn config(lines: bool, words: bool, bytes: bool, chars: bool, files: &[&str]) -> Config {
    Config { lines, words, bytes, chars, files: files.iter().map(|f| f.to_string()).collect() }
}

#[test]
fn arguments_default_to_lines_words_and_bytes() {
    assert_eq!(
        get_args(false, false, false, false, Vec::new()),
        Ok(config(true, true, true, false, &["-"]))
    );
    assert_eq!(
        get_args(false, true, false, false, vec!["a".to_string(), "b".to_string()]),
        Ok(config(false, true, false, false, &["a", "b"]))
    );
    assert_eq!(
        get_args(true, false, false, true, vec!["a".to_string()]),
        Ok(config(true, false, false, true, &["a"]))
    );
}

#[test]
fn arguments_with_bytes_and_characters_are_refused() {
    assert_eq!(
        get_args(false, false, true, true, Vec::new()),
        Err(ArgsError::CharsWithBytes)
    );
    assert_eq!(
        ArgsError::CharsWithBytes.message(),
        "the argument '--chars' cannot be used with '--bytes'"
    );
}

#[test]
fn info_line_shows_what_was_asked_for() {
    let info = FileInfo { num_lines: 1, num_words: 10, num_bytes: 48, num_chars: 47 };
    assert_eq!(
        info_line(&info, &config(true, true, true, false, &["f"]), "f"),
        "       1      10      48 f"
    );
    assert_eq!(
        info_line(&info, &config(true, true, true, false, &["-"]), "-"),
        "       1      10      48"
    );
    assert_eq!(info_line(&info, &config(false, false, false, true, &["f"]), "f"), "      47 f");
    assert_eq!(info_line(&info, &config(false, false, false, false, &["f"]), "f"), " f");
}

#[test]
fn report_counts_and_sums() {
    let cfg = config(true, true, true, false, &["a", "b"]);
    let mut sum = FileInfo::default();
    assert_eq!(report(&cfg, "a", b"one two\n", &mut sum), Ok("       1       2       8 a".to_string()));
    assert_eq!(report(&cfg, "b", b"three\nfour\n", &mut sum), Ok("       2       2      11 b".to_string()));
    assert_eq!(report(&cfg, "c", &[0xff], &mut sum), Err(CountError::InvalidUtf8));
    assert_eq!(sum, FileInfo { num_lines: 3, num_words: 4, num_bytes: 19, num_chars: 19 });
    assert_eq!(total_line(&cfg, &sum), Some("       3       4      19 total".to_string()));
    assert_eq!(total_line(&config(true, true, true, false, &["a"]), &sum), None);
}
