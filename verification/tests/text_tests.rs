use t_whisper::env::join_path;
use t_whisper::text::{
    contains_chars, eq_ignore_ascii_case_chars, lines_of, parse_i32_chars, parse_usize_chars,
    push_decimal, push_signed_decimal, push_zero_padded, split_chars, trim_chars,
};

fn cv(s: &str) -> Vec<char> {
    s.chars().collect()
}

fn st(v: &[char]) -> String {
    v.iter().collect()
}

#[test]
fn trimming_unicode_whitespace() {
    assert_eq!(st(&trim_chars(&cv("  a b \t\n"))), "a b");
    assert_eq!(st(&trim_chars(&cv("\u{3000}中文\u{00A0}"))), "中文");
    assert_eq!(st(&trim_chars(&cv(" \r\n "))), "");
    assert_eq!(st(&trim_chars(&cv("x"))), "x");
}

#[test]
fn lines_like_std() {
    for text in ["", "a", "a\n", "a\nb", "a\r\nb\r\n", "a\r", "\n\n", "x\r\r\ny", "a\n\nb\n"] {
        let ours: Vec<String> = lines_of(&cv(text)).iter().map(|l| st(l)).collect();
        let std_lines: Vec<String> = text.lines().map(|l| l.to_string()).collect();
        assert_eq!(ours, std_lines, "text {:?}", text);
    }
}

#[test]
fn split_like_std() {
    for text in ["", ":", "a:b", "a::b:", "/usr/bin"] {
        let ours: Vec<String> = split_chars(&cv(text), ':').iter().map(|l| st(l)).collect();
        let std_split: Vec<String> = text.split(':').map(|l| l.to_string()).collect();
        assert_eq!(ours, std_split);
    }
}

#[test]
fn integers_like_std() {
    for text in [
        "0", "42", "+42", "-42", "-", "+", "", " 1", "1 ", "2147483647", "2147483648",
        "-2147483648", "-2147483649", "00012", "1e3", "99999999999999999999999",
    ] {
        assert_eq!(parse_i32_chars(&cv(text)), text.parse::<i32>().ok(), "i32 {:?}", text);
        assert_eq!(parse_usize_chars(&cv(text)), text.parse::<usize>().ok(), "usize {:?}", text);
    }
    assert_eq!(parse_usize_chars(&cv("-0")), None);
}

#[test]
fn decimal_formatting() {
    let mut v = Vec::new();
    push_decimal(&mut v, 0);
    v.push(',');
    push_decimal(&mut v, 1_624_555_275);
    v.push(',');
    push_signed_decimal(&mut v, -7);
    v.push(',');
    push_signed_decimal(&mut v, i64::MIN);
    v.push(',');
    push_zero_padded(&mut v, 5, 3);
    v.push(',');
    push_zero_padded(&mut v, 1234, 2);
    assert_eq!(st(&v), format!("0,1624555275,-7,{},005,1234", i64::MIN));
}

#[test]
fn searching_and_case() {
    assert!(contains_chars(&cv("a.trad.txt"), &cv(".trad.")));
    assert!(!contains_chars(&cv("a.tra.txt"), &cv(".trad.")));
    assert!(contains_chars(&cv("abc"), &cv("")));
    assert!(!contains_chars(&cv(""), &cv("a")));
    assert!(eq_ignore_ascii_case_chars(&cv("TrUe"), &cv("true")));
    assert!(!eq_ignore_ascii_case_chars(&cv("trues"), &cv("true")));
    assert!(!eq_ignore_ascii_case_chars(&cv("ÄBC"), &cv("äbc")));
}

#[test]
fn path_joining() {
    assert_eq!(st(&join_path(&cv("/a"), &cv("b"))), "/a/b");
    assert_eq!(st(&join_path(&cv("/a/"), &cv("b"))), "/a/b");
    assert_eq!(st(&join_path(&cv(""), &cv("b"))), "b");
    assert_eq!(st(&join_path(&cv("/a"), &cv("/etc"))), "/etc");
    assert_eq!(st(&join_path(&cv("/a"), &cv(""))), "/a/");
    for (base, rest) in [("/a", "b"), ("/a/", "b"), ("", "b"), ("/a", "/etc"), ("/a", ""), ("x", "y/z")] {
        let expected = std::path::Path::new(base).join(rest);
        assert_eq!(st(&join_path(&cv(base), &cv(rest))), expected.to_string_lossy());
    }
}
