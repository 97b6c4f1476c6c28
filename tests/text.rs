use c_interpreter::pipeline::{compile_verdict, format_output_handle, RunReport};
use c_interpreter::text::{find, has_prefix, is_white_char, join_from, parse_usize, push_decimal, push_signed, split_words, trim};

#[test]
fn white_space_is_unicode_white_space() {
    for c in [' ', '\t', '\n', '\r', '\u{b}', '\u{c}', '\u{85}', '\u{a0}', '\u{1680}', '\u{2000}', '\u{200a}', '\u{2028}', '\u{2029}', '\u{202f}', '\u{205f}', '\u{3000}'] {
        assert!(is_white_char(c));
        assert!(c.is_whitespace());
    }
    for c in ['a', '0', '~', '\u{200b}', '\u{feff}', '\u{180e}'] {
        assert_eq!(is_white_char(c), c.is_whitespace());
    }
    for u in 0u32..=(char::MAX as u32) {
        if let Some(c) = char::from_u32(u) {
            assert_eq!(is_white_char(c), c.is_whitespace(), "{:x}", u);
        }
    }
}

#[test]
fn words_match_split_whitespace() {
    for s in ["", "   ", "a", " ab  c ", "~argv FOO BAR", "x\u{3000}y\u{a0}z", "\tone\ntwo  "] {
        let expected: Vec<String> = s.split_whitespace().map(|w| w.to_string()).collect();
        assert_eq!(split_words(s), expected);
    }
}

#[test]
fn trim_matches_str_trim() {
    for s in ["", "   ", " a b ", "\u{3000}x\t", "~src", "é "] {
        assert_eq!(trim(s), s.trim());
    }
}

#[test]
fn join_with_spaces() {
    let parts = vec!["a".to_string(), "bc".to_string(), "d".to_string()];
    assert_eq!(join_from(&parts, 0), "a bc d");
    assert_eq!(join_from(&parts, 1), "bc d");
    assert_eq!(join_from(&parts, 3), "");
}

#[test]
fn parse_like_from_str() {
    for s in ["0", "12", "+7", "007", "", "+", "-0", "-3", " 1", "1 ", "1a", "18446744073709551615", "18446744073709551616", "99999999999999999999999"] {
        assert_eq!(parse_usize(s), s.parse::<usize>().ok(), "{:?}", s);
    }
}

#[test]
fn decimal_text() {
    let mut out = String::from("n=");
    push_decimal(&mut out, 0);
    push_decimal(&mut out, 10);
    push_decimal(&mut out, u128::MAX);
    assert_eq!(out, format!("n=010{}", u128::MAX));
    let mut s = String::new();
    push_signed(&mut s, -100);
    push_signed(&mut s, i32::MIN);
    push_signed(&mut s, 7);
    assert_eq!(s, format!("-100{}7", i32::MIN));
}

#[test]
fn prefix_and_search() {
    assert!(has_prefix("~src", "~src"));
    assert!(has_prefix("#include", "#inc"));
    assert!(!has_prefix("#in", "#inc"));
    assert!(find("a.c:1:2: error: expected", "error:"));
    assert!(!find("a.c:1:2: warning: unused", "error:"));
    assert!(find("error:", "error:"));
    assert!(!find("erro", "error:"));
}

#[test]
fn compile_verdict_separates_errors_from_warnings() {
    assert_eq!(compile_verdict(""), Ok(()));
    assert_eq!(compile_verdict("temp.c:3:5: warning: unused variable 'x'\n"), Ok(()));
    let diag = "temp.c:8:12: error: expected ';' before 'return'\n";
    assert_eq!(compile_verdict(diag), Err(format!("Compile Error:\n {}", diag)));
}

#[test]
fn report_of_a_signalled_run() {
    let report = RunReport {
        elapsed: "2ms".to_string(),
        status: None,
        stderr: "boom".to_string(),
        stdout: String::new(),
    };
    assert_eq!(
        format_output_handle(&report),
        "[timing] \t2ms\n[status] \t-100\n[stderr] \tboom\n[stdout] \t"
    );
    let exited = RunReport { status: Some(136), ..report };
    assert!(format_output_handle(&exited).contains("[status] \t136\n"));
}
