use psionic::numeral::{i16_text, push_decimal, read_i32, usize_text};
use psionic::text::{occurs, slice, split_chars, to_chars, to_string};

fn chars(text: &str) -> Vec<char> {
    text.chars().collect()
}

fn pieces(text: &str, pattern: &str) -> Vec<String> {
    split_chars(&chars(text), &chars(pattern)).iter().map(|piece| piece.iter().collect()).collect()
}

#[test]
fn text_goes_to_characters_and_back() {
    assert_eq!(to_chars("héllo"), vec!['h', 'é', 'l', 'l', 'o']);
    assert_eq!(to_chars(""), Vec::<char>::new());
    let letters = chars("héllo wörld");
    assert_eq!(to_string(&letters, 0, letters.len()), "héllo wörld");
    assert_eq!(to_string(&letters, 6, 11), "wörld");
    assert_eq!(to_string(&letters, 3, 3), "");
    assert_eq!(slice(&letters, 1, 4), vec!['é', 'l', 'l']);
}

#[test]
fn occurrence_is_found_where_it_stands() {
    let text = chars("abcabc");
    assert!(occurs(&text, &chars("abc"), 0));
    assert!(occurs(&text, &chars("abc"), 3));
    assert!(!occurs(&text, &chars("abc"), 1));
    assert!(!occurs(&text, &chars("abc"), 4));
    assert!(!occurs(&text, &chars("abc"), 7));
    assert!(occurs(&text, &chars(""), 6));
    assert!(!occurs(&chars(""), &chars("a"), 0));
    assert!(occurs(&chars(""), &chars(""), 0));
}

#[test]
fn split_cuts_at_each_occurrence() {
    assert_eq!(pieces("a,b,c", ","), vec!["a", "b", "c"]);
    assert_eq!(pieces("a,b,", ","), vec!["a", "b", ""]);
    assert_eq!(pieces(",a", ","), vec!["", "a"]);
    assert_eq!(pieces("", ","), vec![""]);
    assert_eq!(pieces("abc", ","), vec!["abc"]);
    assert_eq!(pieces(",", ","), vec!["", ""]);
    assert_eq!(pieces("a\r\nb\r\n\r", "\r\n"), vec!["a", "b", "\r"]);
    assert_eq!(pieces("a\r\r\nb", "\r\n"), vec!["a\r", "b"]);
    assert_eq!(pieces("aaa", "aa"), vec!["", "a"]);
    assert_eq!(pieces("aaaa", "aa"), vec!["", "", ""]);
    assert_eq!(pieces("k: v: w", ": "), vec!["k", "v", "w"]);
}

#[test]
fn split_agrees_with_the_standard_library() {
    let texts = ["", "a", "a b", " a  b ", "x: y", ": ", "a\r\nb", "::  ::", "\n\n", "aXbXXc"];
    let patterns = [" ", ": ", "\r\n", "\n", "X", "XX", "::"];
    for text in texts {
        for pattern in patterns {
            let expected: Vec<String> = text.split(pattern).map(|p| p.to_string()).collect();
            assert_eq!(pieces(text, pattern), expected);
        }
    }
}

#[test]
fn split_with_empty_pattern_keeps_the_text_whole() {
    assert_eq!(pieces("abc", ""), vec!["abc"]);
    assert_eq!(pieces("", ""), vec![""]);
}

#[test]
fn numbers_are_written_in_decimal() {
    assert_eq!(usize_text(0), "0");
    assert_eq!(usize_text(7), "7");
    assert_eq!(usize_text(10), "10");
    assert_eq!(usize_text(4096), "4096");
    assert_eq!(usize_text(usize::MAX), usize::MAX.to_string());
    assert_eq!(i16_text(0), "0");
    assert_eq!(i16_text(200), "200");
    assert_eq!(i16_text(-1), "-1");
    assert_eq!(i16_text(i16::MAX), "32767");
    assert_eq!(i16_text(i16::MIN), "-32768");
    let mut text = String::from("n=");
    push_decimal(&mut text, 1234567890123);
    assert_eq!(text, "n=1234567890123");
}

#[test]
fn numbers_are_read_from_decimal() {
    assert_eq!(read_i32(&chars("0")), Some(0));
    assert_eq!(read_i32(&chars("42")), Some(42));
    assert_eq!(read_i32(&chars("007")), Some(7));
    assert_eq!(read_i32(&chars("+42")), Some(42));
    assert_eq!(read_i32(&chars("-42")), Some(-42));
    assert_eq!(read_i32(&chars("-0")), Some(0));
    assert_eq!(read_i32(&chars("2147483647")), Some(i32::MAX));
    assert_eq!(read_i32(&chars("-2147483648")), Some(i32::MIN));
    assert_eq!(read_i32(&chars("2147483648")), None);
    assert_eq!(read_i32(&chars("-2147483649")), None);
    assert_eq!(read_i32(&chars("99999999999999999999999")), None);
    assert_eq!(read_i32(&chars("")), None);
    assert_eq!(read_i32(&chars("+")), None);
    assert_eq!(read_i32(&chars("-")), None);
    assert_eq!(read_i32(&chars("4 2")), None);
    assert_eq!(read_i32(&chars(" 42")), None);
    assert_eq!(read_i32(&chars("42 ")), None);
    assert_eq!(read_i32(&chars("4_2")), None);
    assert_eq!(read_i32(&chars("--4")), None);
    assert_eq!(read_i32(&chars("12a")), None);
    assert_eq!(read_i32(&chars("99999999999a")), None);
}

#[test]
fn reading_agrees_with_the_standard_library() {
    let texts = [
        "1", "-1", "+1", "00", "2147483647", "2147483648", "-2147483648", "-2147483649", "", "+",
        "-", "1.0", "0x10", "١٢", "12 ", "+-1", "3000000000", "000000000000000000001",
    ];
    for text in texts {
        assert_eq!(read_i32(&chars(text)), text.parse::<i32>().ok(), "{}", text);
    }
}
