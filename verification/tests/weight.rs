use structure_editor::session::Session;
use structure_editor::weight::is_float_literal;
use structure_editor::weight::normalize_weight;
use structure_editor::weight::strip_dots;
use structure_editor::weight::trim_spaces;

#[test]
fn plain_numbers_are_valid() {
    assert!(is_float_literal("1.5"));
    assert!(is_float_literal("0"));
    assert!(is_float_literal("119"));
    assert!(is_float_literal("-2"));
    assert!(is_float_literal("+0.25"));
    assert!(is_float_literal("3."));
    assert!(is_float_literal(".5"));
    assert!(is_float_literal("-.5"));
}

#[test]
fn exponents_are_valid() {
    assert!(is_float_literal("1e5"));
    assert!(is_float_literal("2.5E-3"));
    assert!(is_float_literal("-1.e+2"));
    assert!(is_float_literal(".5e0"));
    assert!(is_float_literal("7E00"));
}

#[test]
fn special_words_are_valid_case_insensitively() {
    assert!(is_float_literal("inf"));
    assert!(is_float_literal("Inf"));
    assert!(is_float_literal("INF"));
    assert!(is_float_literal("-inf"));
    assert!(is_float_literal("infinity"));
    assert!(is_float_literal("Infinity"));
    assert!(is_float_literal("nan"));
    assert!(is_float_literal("NaN"));
    assert!(is_float_literal("+NAN"));
}

#[test]
fn malformed_text_is_invalid() {
    assert!(!is_float_literal(""));
    assert!(!is_float_literal("."));
    assert!(!is_float_literal("+"));
    assert!(!is_float_literal("-."));
    assert!(!is_float_literal("abc"));
    assert!(!is_float_literal("1e"));
    assert!(!is_float_literal("e5"));
    assert!(!is_float_literal("1e+"));
    assert!(!is_float_literal("--1"));
    assert!(!is_float_literal("1.2.3"));
    assert!(!is_float_literal("1 5"));
    assert!(!is_float_literal("nan5"));
    assert!(!is_float_literal("infx"));
    assert!(!is_float_literal("in"));
    assert!(!is_float_literal("5-"));
}

#[test]
fn validity_agrees_with_the_standard_float_parser() {
    let samples = [
        "1.5", "0", "-2", "+0.25", "3.", ".5", "1e5", "2.5E-3", "-1.e+2", "inf", "Infinity",
        "NaN", "", ".", "+", "abc", "1e", "e5", "--1", "1.2.3", "nan5", "1 5", "0x10", "½",
    ];
    for t in samples {
        assert_eq!(is_float_literal(t), t.parse::<f64>().is_ok(), "disagreement on {:?}", t);
    }
}

#[test]
fn validity_agrees_with_the_standard_float_parser_exhaustively() {
    // every string of length up to three over a pointed alphabet
    let alphabet = [
        '0', '1', '9', '.', 'e', 'E', '+', '-', 'i', 'n', 'f', 'N', 'a', 'y', 't', ' ', 'x',
    ];
    let mut cases: Vec<String> = vec![String::new()];
    for c in alphabet {
        cases.push(c.to_string());
    }
    for a in alphabet {
        for b in alphabet {
            cases.push(format!("{}{}", a, b));
            for c in alphabet {
                cases.push(format!("{}{}{}", a, b, c));
            }
        }
    }
    for t in &cases {
        assert_eq!(
            is_float_literal(t),
            t.parse::<f64>().is_ok(),
            "disagreement on {:?}",
            t
        );
    }
}

#[test]
fn trimming_strips_both_ends_only() {
    assert_eq!(trim_spaces("  1.5\t\n"), "1.5");
    assert_eq!(trim_spaces("1 5"), "1 5");
    assert_eq!(trim_spaces("   "), "");
    assert_eq!(trim_spaces(""), "");
}

#[test]
fn normalization_trims_and_rewrites_commas() {
    assert_eq!(normalize_weight(" 1,5 "), "1.5");
    assert_eq!(normalize_weight("0,25"), "0.25");
    assert_eq!(normalize_weight("12"), "12");
}

#[test]
fn comma_weight_becomes_a_valid_dot_weight() {
    let mut s = Session::new();
    s.set_weight(" 1,5 ");
    assert!(s.weight_ready());
    assert_eq!(s.weight_text(), "1.5");
}

#[test]
fn file_name_loses_its_dots() {
    assert_eq!(strip_dots("my.structure.txt"), "mystructuretxt");
    assert_eq!(strip_dots("plain"), "plain");
    assert_eq!(strip_dots("..."), "");
    let mut s = Session::new();
    s.set_file_name("a.b");
    assert_eq!(s.file_name(), "ab");
}
