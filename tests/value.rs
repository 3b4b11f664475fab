use rustphorus::value::{
    compare_folded, compare_string, contains_text, count_of, text_length, trim, order_numbers, Order, join_text, letter_of, parse_number_literal,
    Value, INFINITY_BITS, NAN_BITS, NEG_INFINITY_BITS, ONE_BITS, ZERO_BITS,
};

fn text(s: &str) -> Value {
    Value::String(String::from(s))
}

fn num(f: f64) -> Value {
    Value::Float(f.to_bits())
}

#[test]
fn to_bool_of_bool_is_itself() {
    assert!(Value::Bool(true).to_bool());
    assert!(!Value::Bool(false).to_bool());
}

#[test]
fn to_bool_of_false_texts() {
    assert!(!text("").to_bool());
    assert!(!text("0").to_bool());
    assert!(!text("False").to_bool());
    assert!(!text("FALSE").to_bool());
    assert!(!text("false").to_bool());
}

#[test]
fn to_bool_of_other_texts_is_true() {
    assert!(text("0.0").to_bool());
    assert!(text("hello").to_bool());
    assert!(text(" ").to_bool());
}

#[test]
fn to_bool_of_numbers() {
    assert!(!num(0.0).to_bool());
    assert!(!num(-0.0).to_bool());
    assert!(num(2.5).to_bool());
    assert!(num(f64::NAN).to_bool());
    assert!(num(f64::INFINITY).to_bool());
}

#[test]
fn known_text_of_special_numbers() {
    assert_eq!(num(f64::NAN).known_text(), Some(String::from("NaN")));
    assert_eq!(num(f64::INFINITY).known_text(), Some(String::from("Infinity")));
    assert_eq!(num(f64::NEG_INFINITY).known_text(), Some(String::from("-Infinity")));
    assert_eq!(num(-0.0).known_text(), Some(String::from("0")));
    assert_eq!(num(0.0).known_text(), Some(String::from("0")));
    assert_eq!(num(1.5).known_text(), None);
}

#[test]
fn known_text_of_texts_and_booleans() {
    assert_eq!(text("abc").known_text(), Some(String::from("abc")));
    assert_eq!(Value::Bool(true).known_text(), Some(String::from("true")));
    assert_eq!(Value::Bool(false).known_text(), Some(String::from("false")));
}

#[test]
fn is_int_cases() {
    assert!(Value::Bool(false).is_int());
    assert!(num(3.0).is_int());
    assert!(num(-1024.0).is_int());
    assert!(num(0.0).is_int());
    assert!(num(1e300).is_int());
    assert!(num(f64::INFINITY).is_int());
    assert!(!num(f64::NAN).is_int());
    assert!(!num(2.5).is_int());
    assert!(!num(0.1).is_int());
    assert!(!num(4503599627370495.5).is_int());
    assert!(text("12").is_int());
    assert!(!text("1.0").is_int());
}

#[test]
fn is_whitespace_cases() {
    assert!(text("  \t ").is_whitespace());
    assert!(text("").is_whitespace());
    assert!(!text(" a ").is_whitespace());
    assert!(!num(0.0).is_whitespace());
}

#[test]
fn literal_number_forms() {
    assert_eq!(parse_number_literal("Infinity"), Some(INFINITY_BITS));
    assert_eq!(parse_number_literal(" -Infinity "), Some(NEG_INFINITY_BITS));
    assert_eq!(parse_number_literal("NaN"), Some(NAN_BITS));
    assert_eq!(parse_number_literal("inf"), Some(ZERO_BITS));
    assert_eq!(parse_number_literal("-inf"), Some(ZERO_BITS));
    assert_eq!(parse_number_literal("nan"), Some(ZERO_BITS));
    assert_eq!(parse_number_literal("infinity"), Some(ZERO_BITS));
    assert_eq!(parse_number_literal("-infinity"), Some(ZERO_BITS));
    assert_eq!(parse_number_literal("12"), None);
    assert!(f64::from_bits(NAN_BITS).is_nan());
    assert_eq!(f64::from_bits(INFINITY_BITS), f64::INFINITY);
}

#[test]
fn to_number_of_values() {
    assert_eq!(num(f64::NAN).to_number(), Some(ZERO_BITS));
    assert_eq!(num(2.5).to_number(), Some(2.5f64.to_bits()));
    assert_eq!(Value::Bool(true).to_number(), Some(ONE_BITS));
    assert_eq!(f64::from_bits(ONE_BITS), 1.0);
    assert_eq!(Value::Bool(false).to_number(), Some(ZERO_BITS));
    assert_eq!(text("Infinity").to_number(), Some(INFINITY_BITS));
    assert_eq!(text("7").to_number(), None);
}

#[test]
fn compare_string_ignores_case() {
    assert_eq!(compare_string("Apple", "apple"), 0);
    assert_eq!(compare_string("apple", "Banana"), -1);
    assert_eq!(compare_string("Banana", "apple"), 1);
    assert_eq!(compare_string("ab", "abc"), -1);
}

#[test]
fn compare_is_antisymmetric_on_examples() {
    let words = ["", "a", "B", "abc", "Abd", "zeta", "10", "9"];
    for a in words.iter() {
        for b in words.iter() {
            assert_eq!(compare_string(a, b), -compare_string(b, a));
        }
    }
    assert_eq!(compare_folded("A", "a"), -1);
}

fn cmp(a: &Value, b: &Value) -> Order {
    let parse = |v: &Value| match v {
        Value::String(s) => s.parse::<f64>().ok().map(f64::to_bits),
        _ => None,
    };
    let format = |v: &Value| match v {
        Value::Float(b) => f64::from_bits(*b).to_string(),
        _ => String::new(),
    };
    a.compare(b, parse(a), parse(b), &format(a), &format(b))
}

#[test]
fn compare_numbers_by_value() {
    assert_eq!(cmp(&num(1.0), &num(2.0)), Order::Less);
    assert_eq!(cmp(&num(2.0), &num(-3.0)), Order::Greater);
    assert_eq!(cmp(&num(0.0), &num(-0.0)), Order::Equal);
    assert_eq!(cmp(&num(-1.5), &num(-0.5)), Order::Less);
    assert_eq!(cmp(&num(f64::INFINITY), &num(1e308)), Order::Greater);
    assert_eq!(cmp(&num(f64::NEG_INFINITY), &num(f64::INFINITY)), Order::Less);
    assert_eq!(cmp(&num(f64::INFINITY), &num(f64::INFINITY)), Order::Unordered);
    assert_eq!(cmp(&num(f64::NAN), &num(1.0)), Order::Unordered);
    assert_eq!(order_numbers(5e-324f64.to_bits(), 0f64.to_bits()), Order::Greater);
}

#[test]
fn compare_mixed_values() {
    assert_eq!(cmp(&Value::Bool(true), &num(1.0)), Order::Equal);
    assert_eq!(cmp(&Value::Bool(false), &Value::Bool(true)), Order::Less);
    assert_eq!(cmp(&num(10.0), &text("9")), Order::Greater);
    assert_eq!(cmp(&text("10"), &text("9")), Order::Greater);
    assert_eq!(cmp(&text("2"), &text("2.0")), Order::Equal);
    assert_eq!(cmp(&text("abc"), &text("9")), Order::Greater);
    assert_eq!(cmp(&text("abc"), &num(1.0)), Order::Greater);
    assert_eq!(cmp(&text("ABC"), &text("abc")), Order::Equal);
    assert_eq!(cmp(&Value::Bool(true), &text("TRUE")), Order::Equal);
}

#[test]
fn compare_reverses_when_swapped() {
    let values = vec![
        num(0.0), num(-2.5), num(7.0), num(f64::NAN), num(f64::INFINITY), text(""), text("a"),
        text("B"), text("10"), text("9.5"), Value::Bool(true), Value::Bool(false),
    ];
    for a in &values {
        for b in &values {
            let forward = cmp(a, b);
            let backward = cmp(b, a);
            let reversed = match backward {
                Order::Less => Order::Greater,
                Order::Greater => Order::Less,
                o => o,
            };
            assert_eq!(forward, reversed);
        }
    }
}

#[test]
fn letter_of_is_one_based() {
    assert_eq!(letter_of("hello", 1), "h");
    assert_eq!(letter_of("hello", 5), "o");
    assert_eq!(letter_of("hello", 0), "");
    assert_eq!(letter_of("hello", 6), "");
}

#[test]
fn contains_ignores_case() {
    assert!(contains_text("Hello World", "WORLD"));
    assert!(contains_text("abc", ""));
    assert!(!contains_text("abc", "abcd"));
    assert!(!contains_text("abc", "x"));
}

#[test]
fn join_concatenates() {
    assert_eq!(join_text("foo", "bar"), "foobar");
    assert_eq!(join_text("", ""), "");
}

#[test]
fn count_of_matches_saturating_cast() {
    let samples = [
        0.0, -0.0, 0.5, 0.999, 1.0, 1.5, 2.0, 3.7, 10.0, 255.9, 65536.25, 4294967295.0, 4294967295.9,
        4294967296.0, 1e10, 1e300, -1.0, -0.5, -1e300, 5e-324, f64::INFINITY, f64::NEG_INFINITY, f64::NAN,
        2147483648.5, 123456789.123,
    ];
    for f in samples.iter() {
        assert_eq!(count_of(f.to_bits()), *f as u32, "count of {f}");
    }
}

#[test]
fn empty_text_edges() {
    assert_eq!(letter_of("", 1), "");
    assert!(!contains_text("", "a"));
    assert!(contains_text("", ""));
    assert_eq!(compare_string("", ""), 0);
    assert_eq!(compare_string("", "a"), -1);
}

#[test]
fn trim_removes_unicode_white_space() {
    assert_eq!(trim("  a b \t\n"), "a b");
    assert_eq!(trim("\u{3000}\u{a0}x\u{2028}"), "x");
    assert_eq!(trim(" \u{85} "), "");
    assert_eq!(trim("\u{200b}x"), "\u{200b}x");
    for s in ["", " ", "a", " a ", "\u{1680}b\u{205f}", "\u{2000}\u{200a}c d\u{202f}"] {
        assert_eq!(trim(s), s.trim());
    }
    assert!(text("\u{3000}").is_whitespace());
    assert_eq!(parse_number_literal("\u{a0}NaN\u{a0}"), Some(NAN_BITS));
}

#[test]
fn text_length_counts_letters() {
    assert_eq!(text_length(""), 0);
    assert_eq!(text_length("hello"), 5);
    assert_eq!(text_length("h\u{e9}llo"), 5);
}
