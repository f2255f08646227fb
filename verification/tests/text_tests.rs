use lazyreq::decimal::{format_u64, parse_u64};
use lazyreq::hex::format_hex;
use lazyreq::text::{
    chars_of, find_char, lines_of, same_chars, split_chars, starts_with, str_eq, string_of, subvec,
    trim_chars,
};

fn strings(parts: &Vec<Vec<char>>) -> Vec<String> {
    parts.iter().map(|p| string_of(p)).collect()
}

#[test]
fn chars_round_trip() {
    let v = chars_of("héllo $x");
    assert_eq!(v.len(), 8);
    assert_eq!(string_of(&v), "héllo $x");
    assert_eq!(string_of(&chars_of("")), "");
}

#[test]
fn subvec_takes_the_range() {
    let v = chars_of("abcdef");
    assert_eq!(string_of(&subvec(&v, 2, 4)), "cd");
    assert_eq!(string_of(&subvec(&v, 3, 3)), "");
}

#[test]
fn starts_with_and_equality() {
    assert!(starts_with(&chars_of("file://x"), &chars_of("file://")));
    assert!(!starts_with(&chars_of("fil"), &chars_of("file://")));
    assert!(starts_with(&chars_of("abc"), &chars_of("")));
    assert!(same_chars(&chars_of("abc"), &chars_of("abc")));
    assert!(!same_chars(&chars_of("abc"), &chars_of("abd")));
    assert!(!same_chars(&chars_of("abc"), &chars_of("ab")));
    assert!(str_eq("GET", "GET"));
    assert!(!str_eq("GET", "get"));
}

#[test]
fn find_char_gives_first_index_or_length() {
    let v = chars_of("a=b=c");
    assert_eq!(find_char(&v, '=', 0), 1);
    assert_eq!(find_char(&v, '=', 2), 3);
    assert_eq!(find_char(&v, '=', 4), 5);
    assert_eq!(find_char(&v, 'x', 0), 5);
}

#[test]
fn split_keeps_empty_pieces() {
    assert_eq!(strings(&split_chars(&chars_of("a=b=c"), '=')), vec!["a", "b", "c"]);
    assert_eq!(strings(&split_chars(&chars_of("=a="), '=')), vec!["", "a", ""]);
    assert_eq!(strings(&split_chars(&chars_of(""), '=')), vec![""]);
    assert_eq!(strings(&split_chars(&chars_of("abc"), '=')), vec!["abc"]);
}

#[test]
fn trim_removes_white_space_at_both_ends() {
    assert_eq!(string_of(&trim_chars(&chars_of("  a b \t\r\n"))), "a b");
    assert_eq!(string_of(&trim_chars(&chars_of("\u{a0}\u{3000}x\u{2003}"))), "x");
    assert_eq!(string_of(&trim_chars(&chars_of("   "))), "");
    assert_eq!(string_of(&trim_chars(&chars_of(""))), "");
    assert_eq!(string_of(&trim_chars(&chars_of("x"))), "x");
}

#[test]
fn trim_agrees_with_std_on_every_character() {
    let mut code: u32 = 0;
    while code <= 0x3100 {
        if let Some(c) = char::from_u32(code) {
            let text = format!("{}x{}", c, c);
            assert_eq!(string_of(&trim_chars(&chars_of(&text))), text.trim(), "U+{:04X}", code);
        }
        code += 1;
    }
}

#[test]
fn lines_end_at_line_feeds() {
    assert_eq!(strings(&lines_of(&chars_of("a\nb\r\nc"))), vec!["a", "b", "c"]);
    assert_eq!(strings(&lines_of(&chars_of("a\nb\n"))), vec!["a", "b"]);
    assert_eq!(strings(&lines_of(&chars_of("a\n\nb"))), vec!["a", "", "b"]);
    assert_eq!(strings(&lines_of(&chars_of("a\r"))), vec!["a\r"]);
    assert!(lines_of(&chars_of("")).is_empty());
    assert_eq!(strings(&lines_of(&chars_of("\n"))), vec![""]);
}

#[test]
fn lines_agree_with_std() {
    for text in ["", "a", "a\n", "a\r\n", "a\rb\n", "\n\n", "x\r\n\r\ny", "a\r", "\r\n"] {
        let expected: Vec<String> = text.lines().map(|l| l.to_string()).collect();
        assert_eq!(strings(&lines_of(&chars_of(text))), expected, "{:?}", text);
    }
}

#[test]
fn decimal_round_trip() {
    assert_eq!(string_of(&format_u64(0)), "0");
    assert_eq!(string_of(&format_u64(1234567890)), "1234567890");
    assert_eq!(string_of(&format_u64(u64::MAX)), "18446744073709551615");
    assert_eq!(parse_u64(&chars_of("1234567890")), Some(1234567890));
    assert_eq!(parse_u64(&chars_of("18446744073709551615")), Some(u64::MAX));
    assert_eq!(parse_u64(&chars_of("007")), Some(7));
    assert_eq!(parse_u64(&chars_of("+5")), Some(5));
}

#[test]
fn decimal_refuses_what_is_no_number() {
    assert_eq!(parse_u64(&chars_of("")), None);
    assert_eq!(parse_u64(&chars_of("+")), None);
    assert_eq!(parse_u64(&chars_of("-1")), None);
    assert_eq!(parse_u64(&chars_of("12a")), None);
    assert_eq!(parse_u64(&chars_of(" 12")), None);
    assert_eq!(parse_u64(&chars_of("++1")), None);
    assert_eq!(parse_u64(&chars_of("18446744073709551616")), None);
    assert_eq!(parse_u64(&chars_of("99999999999999999999999")), None);
}

#[test]
fn decimal_agrees_with_std() {
    for text in ["0", "42", "+42", "0042", "", "+", "4 2", "١٢", "18446744073709551615", "18446744073709551616"] {
        assert_eq!(parse_u64(&chars_of(text)), text.parse::<u64>().ok(), "{:?}", text);
    }
}

#[test]
fn hex_has_no_leading_zeros() {
    assert_eq!(string_of(&format_hex(0)), "0");
    assert_eq!(string_of(&format_hex(255)), "ff");
    assert_eq!(string_of(&format_hex(0xdeadbeef)), "deadbeef");
    assert_eq!(string_of(&format_hex(u64::MAX)), "ffffffffffffffff");
    assert_eq!(string_of(&format_hex(0x0fdb8a8a7c80f114)), format!("{:x}", 0x0fdb8a8a7c80f114u64));
}
