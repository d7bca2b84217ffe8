use rnf::ast::BinOp;
use rnf::runtime::{
    bool_to_text, byte_len, char_at_index, compare_text, contains, ends_with, int_binary,
    int_to_text, join, parse_int_or_zero, range_values, replace, split, starts_with, to_lower,
    to_upper, trim, usize_to_text, ArithError, IntOutcome,
};

fn strings(v: &[&str]) -> Vec<String> {
    v.iter().map(|s| s.to_string()).collect()
}

#[test]
fn conversions_from_the_reference() {
    // str(42) == "42", str(true) == "true", int("42") == 42
    assert_eq!(int_to_text(42), "42");
    assert_eq!(bool_to_text(true), "true");
    assert_eq!(bool_to_text(false), "false");
    assert_eq!(parse_int_or_zero("42"), 42);
}

#[test]
fn integer_text_edges() {
    assert_eq!(int_to_text(0), "0");
    assert_eq!(int_to_text(-7), "-7");
    assert_eq!(int_to_text(i64::MIN), "-9223372036854775808");
    assert_eq!(int_to_text(i64::MAX), "9223372036854775807");
    assert_eq!(usize_to_text(1230), "1230");
}

#[test]
fn parsing_integers_or_zero() {
    assert_eq!(parse_int_or_zero("+5"), 5);
    assert_eq!(parse_int_or_zero("-12"), -12);
    assert_eq!(parse_int_or_zero("-"), 0);
    assert_eq!(parse_int_or_zero(""), 0);
    assert_eq!(parse_int_or_zero(" 1"), 0);
    assert_eq!(parse_int_or_zero("1x"), 0);
    assert_eq!(parse_int_or_zero("007"), 7);
    assert_eq!(parse_int_or_zero("9223372036854775807"), i64::MAX);
    assert_eq!(parse_int_or_zero("9223372036854775808"), 0);
    assert_eq!(parse_int_or_zero("-9223372036854775808"), i64::MIN);
    assert_eq!(parse_int_or_zero("-9223372036854775809"), 0);
}

#[test]
fn string_builtins_from_the_reference() {
    assert_eq!(byte_len("hello"), 5);
    assert_eq!(trim("  hello  "), "hello");
    assert_eq!(to_upper("hello"), "HELLO");
    assert_eq!(to_lower("HELLO"), "hello");
    assert!(contains("hello", "ell"));
    assert!(starts_with("hello", "he"));
    assert!(ends_with("hello", "lo"));
    assert_eq!(replace("hello", "l", "r"), "herro");
    assert_eq!(split("a,b,c", ","), strings(&["a", "b", "c"]));
    assert_eq!(join(&strings(&["a", "b", "c"]), "-"), "a-b-c");
    assert_eq!(rnf::runtime::format("Hello {}!", &strings(&["World"])), "Hello World!");
}

#[test]
fn string_builtin_edges() {
    assert_eq!(byte_len("é"), 2);
    assert_eq!(byte_len(""), 0);
    assert_eq!(trim("\t\n x y \r\n"), "x y");
    assert_eq!(trim("   "), "");
    assert!(contains("abc", ""));
    assert!(!contains("abc", "abcd"));
    assert!(!starts_with("he", "hello"));
    assert!(ends_with("abc", ""));
    assert!(!ends_with("abc", "b"));
    assert_eq!(replace("aaa", "aa", "b"), "ba");
    assert_eq!(replace("abc", "", "-"), "-a-b-c-");
    assert_eq!(replace("abc", "x", "y"), "abc");
    assert_eq!(to_upper("MiXeD 1"), "MIXED 1");
    assert_eq!(to_lower("MiXeD 1"), "mixed 1");
}

#[test]
fn split_edges() {
    assert_eq!(split("", ","), strings(&[""]));
    assert_eq!(split("a,,b,", ","), strings(&["a", "", "b", ""]));
    assert_eq!(split("a b", " "), strings(&["a", "b"]));
    assert_eq!(split("a--b", "--"), strings(&["a", "b"]));
    assert_eq!(split("abc", ""), strings(&["", "a", "b", "c", ""]));
}

#[test]
fn join_edges() {
    assert_eq!(join(&Vec::new(), ","), "");
    assert_eq!(join(&strings(&["x"]), ","), "x");
    assert_eq!(join(&strings(&["", ""]), "+"), "+");
}

#[test]
fn format_edges() {
    assert_eq!(rnf::runtime::format("{} and {}", &strings(&["a", "b"])), "a and b");
    assert_eq!(rnf::runtime::format("{} and {}", &strings(&["a"])), "a and {}");
    assert_eq!(rnf::runtime::format("none", &strings(&["a"])), "none");
    // A replacement that itself holds `{}` is filled by the next argument.
    assert_eq!(rnf::runtime::format("{}!", &strings(&["{}", "x"])), "x!");
    assert_eq!(rnf::runtime::format("{}", &Vec::new()), "{}");
}

#[test]
fn indexing_characters() {
    assert_eq!(char_at_index("héllo", 1), Some('é'));
    assert_eq!(char_at_index("abc", 0), Some('a'));
    assert_eq!(char_at_index("abc", 2), Some('c'));
    assert_eq!(char_at_index("abc", 3), None);
    assert_eq!(char_at_index("abc", -1), None);
    assert_eq!(char_at_index("", 0), None);
}

#[test]
fn numeric_ranges() {
    // loop i in 0..10 visits 0 up to 9
    assert_eq!(range_values(0, 10), (0..10).collect::<Vec<i64>>());
    assert_eq!(range_values(3, 3), Vec::<i64>::new());
    assert_eq!(range_values(5, 2), Vec::<i64>::new());
    assert_eq!(range_values(-2, 1), vec![-2, -1, 0]);
    assert_eq!(range_values(i64::MAX - 1, i64::MAX), vec![i64::MAX - 1]);
}

#[test]
fn odd_numbers_below_eleven() {
    // loop i in 0..100 { if i % 2 == 0 { continue }  if i > 10 { break }  print(str(i)) }
    let mut out = Vec::new();
    for i in range_values(0, 100) {
        if int_binary(BinOp::Eq, match int_binary(BinOp::Mod, i, 2) {
            Ok(IntOutcome::Int(m)) => m,
            other => panic!("{:?}", other),
        }, 0) == Ok(IntOutcome::Bool(true)) {
            continue;
        }
        if int_binary(BinOp::Gt, i, 10) == Ok(IntOutcome::Bool(true)) {
            break;
        }
        out.push(int_to_text(i));
    }
    assert_eq!(join(&out, " "), "1 3 5 7 9");
}

#[test]
fn text_ordering() {
    assert_eq!(compare_text("a", "b"), -1);
    assert_eq!(compare_text("b", "a"), 1);
    assert_eq!(compare_text("abc", "abc"), 0);
    assert_eq!(compare_text("ab", "abc"), -1);
    assert_eq!(compare_text("abc", "ab"), 1);
    assert_eq!(compare_text("", ""), 0);
    assert_eq!(compare_text("Z", "a"), -1);
    assert_eq!(compare_text("é", "z"), 1);
}

#[test]
fn integer_arithmetic() {
    assert_eq!(int_binary(BinOp::Add, 2, 3), Ok(IntOutcome::Int(5)));
    assert_eq!(int_binary(BinOp::Sub, 2, 3), Ok(IntOutcome::Int(-1)));
    assert_eq!(int_binary(BinOp::Mul, -4, 3), Ok(IntOutcome::Int(-12)));
    assert_eq!(int_binary(BinOp::Div, 7, 2), Ok(IntOutcome::Int(3)));
    assert_eq!(int_binary(BinOp::Div, -7, 2), Ok(IntOutcome::Int(-3)));
    assert_eq!(int_binary(BinOp::Div, 7, -2), Ok(IntOutcome::Int(-3)));
    assert_eq!(int_binary(BinOp::Div, -7, -2), Ok(IntOutcome::Int(3)));
    assert_eq!(int_binary(BinOp::Div, i64::MIN, 1), Ok(IntOutcome::Int(i64::MIN)));
    assert_eq!(int_binary(BinOp::Mod, 7, 3), Ok(IntOutcome::Int(1)));
    assert_eq!(int_binary(BinOp::Mod, -7, 3), Ok(IntOutcome::Int(-1)));
    assert_eq!(int_binary(BinOp::Mod, 7, -3), Ok(IntOutcome::Int(1)));
    assert_eq!(int_binary(BinOp::Mod, i64::MIN, 2), Ok(IntOutcome::Int(0)));
}

#[test]
fn zero_divisors_are_refused() {
    assert_eq!(int_binary(BinOp::Div, 1, 0), Err(ArithError::DivisionByZero));
    assert_eq!(int_binary(BinOp::Mod, 1, 0), Err(ArithError::ModuloByZero));
}

#[test]
fn integer_comparisons_and_logic() {
    assert_eq!(int_binary(BinOp::Eq, 1, 1), Ok(IntOutcome::Bool(true)));
    assert_eq!(int_binary(BinOp::Ne, 1, 1), Ok(IntOutcome::Bool(false)));
    assert_eq!(int_binary(BinOp::Lt, 1, 2), Ok(IntOutcome::Bool(true)));
    assert_eq!(int_binary(BinOp::Gt, 1, 2), Ok(IntOutcome::Bool(false)));
    assert_eq!(int_binary(BinOp::Le, 2, 2), Ok(IntOutcome::Bool(true)));
    assert_eq!(int_binary(BinOp::Ge, 1, 2), Ok(IntOutcome::Bool(false)));
    assert_eq!(int_binary(BinOp::And, 5, 0), Ok(IntOutcome::Bool(false)));
    assert_eq!(int_binary(BinOp::And, 5, -1), Ok(IntOutcome::Bool(true)));
    assert_eq!(int_binary(BinOp::Or, 0, 0), Ok(IntOutcome::Bool(false)));
    assert_eq!(int_binary(BinOp::Or, 0, 3), Ok(IntOutcome::Bool(true)));
}

#[test]
fn text_of_an_integer_reads_back() {
    for n in [0, 1, -1, 42, -42, 1000, i64::MAX, i64::MIN, i64::MIN + 1] {
        assert_eq!(parse_int_or_zero(&int_to_text(n)), n);
    }
}

#[test]
fn join_undoes_split() {
    for (s, sep) in [("a,b,c", ","), ("", ","), (",,", ","), ("x--y--", "--"), ("no sep", ";"), ("abc", ""), ("", "")] {
        assert_eq!(join(&split(s, sep), sep), s);
    }
}

#[test]
fn trimming_twice_changes_nothing() {
    for s in ["  a b  ", "", "   ", "\tx\n", "y"] {
        assert_eq!(trim(&trim(s)), trim(s));
    }
}

#[test]
fn text_order_is_antisymmetric() {
    for (a, b) in [("a", "b"), ("ab", "a"), ("", "x"), ("same", "same"), ("é", "e")] {
        assert_eq!(compare_text(a, b), -compare_text(b, a));
        assert_eq!(compare_text(a, b) == 0, a == b);
    }
}

#[test]
fn quotient_and_remainder_rebuild_the_dividend() {
    for (a, b) in [(7, 2), (-7, 2), (7, -2), (-7, -2), (0, 5), (i64::MIN, 3), (i64::MAX, -7)] {
        let q = match int_binary(BinOp::Div, a, b) {
            Ok(IntOutcome::Int(q)) => q,
            other => panic!("{:?}", other),
        };
        let r = match int_binary(BinOp::Mod, a, b) {
            Ok(IntOutcome::Int(r)) => r,
            other => panic!("{:?}", other),
        };
        assert_eq!(b as i128 * q as i128 + r as i128, a as i128);
        assert!(r.unsigned_abs() < b.unsigned_abs());
        assert!(r == 0 || (r < 0) == (a < 0));
    }
}
