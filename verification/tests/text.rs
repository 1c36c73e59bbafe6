use http_server::text::{
    chars_of, decimal_text, integer_text, parse_i32, slice_text, text_eq, trim,
};

#[test]
fn decimal_of_numbers() {
    assert_eq!(decimal_text(0), "0");
    assert_eq!(decimal_text(7), "7");
    assert_eq!(decimal_text(10), "10");
    assert_eq!(decimal_text(404), "404");
    assert_eq!(decimal_text(1234567890), "1234567890");
    assert_eq!(decimal_text(u64::MAX), "18446744073709551615");
}

#[test]
fn decimal_agrees_with_the_standard_library() {
    let mut n: u64 = 1;
    for _ in 0..19 {
        assert_eq!(decimal_text(n), n.to_string());
        assert_eq!(decimal_text(n - 1), (n - 1).to_string());
        n *= 10;
    }
}

#[test]
fn trim_removes_white_space_around() {
    assert_eq!(trim("  a b \t\r\n"), "a b");
    assert_eq!(trim("a"), "a");
    assert_eq!(trim(""), "");
    assert_eq!(trim(" \t "), "");
    assert_eq!(trim("\u{a0}x\u{2003}"), "x");
    assert_eq!(trim(" é "), "é");
}

#[test]
fn trim_agrees_with_the_standard_library() {
    for text in ["", " ", "a ", " a", " a b ", "\u{3000}a\u{feff}", "\na\u{b}"] {
        assert_eq!(trim(text), text.trim());
    }
}

#[test]
fn texts_are_equal_when_they_are_the_same() {
    assert!(text_eq("", ""));
    assert!(text_eq("Content-Length", "Content-Length"));
    assert!(!text_eq("Content-Length", "content-length"));
    assert!(!text_eq("é", "e"));
    assert!(text_eq("héllo", "héllo"));
}

#[test]
fn characters_of_a_text() {
    assert_eq!(chars_of("aé/"), vec!['a', 'é', '/']);
    assert!(chars_of("").is_empty());
}

#[test]
fn slice_counts_characters() {
    assert_eq!(slice_text("héllo wörld", 1, 5), "éllo");
    assert_eq!(slice_text("abc", 0, 0), "");
    assert_eq!(slice_text("abc", 3, 3), "");
    assert_eq!(slice_text("abc", 0, 3), "abc");
}

#[test]
fn integers_are_written_with_their_sign() {
    assert_eq!(integer_text(0), "0");
    assert_eq!(integer_text(42), "42");
    assert_eq!(integer_text(-42), "-42");
    assert_eq!(integer_text(i32::MAX), "2147483647");
    assert_eq!(integer_text(i32::MIN), "-2147483648");
}

#[test]
fn integers_are_read() {
    assert_eq!(parse_i32("0"), Some(0));
    assert_eq!(parse_i32("42"), Some(42));
    assert_eq!(parse_i32("+42"), Some(42));
    assert_eq!(parse_i32("-42"), Some(-42));
    assert_eq!(parse_i32("-0"), Some(0));
    assert_eq!(parse_i32("007"), Some(7));
    assert_eq!(parse_i32("2147483647"), Some(i32::MAX));
    assert_eq!(parse_i32("-2147483648"), Some(i32::MIN));
    assert_eq!(parse_i32("00000000000000000000000001"), Some(1));
}

#[test]
fn what_is_no_integer_is_not_read() {
    for text in ["", "+", "-", "+-1", "--1", " 1", "1 ", "1.0", "a", "1a", "٣", "0x10", "1_000"] {
        assert_eq!(parse_i32(text), None);
    }
}

#[test]
fn integers_out_of_range_are_not_read() {
    assert_eq!(parse_i32("2147483648"), None);
    assert_eq!(parse_i32("-2147483649"), None);
    assert_eq!(parse_i32("99999999999999999999999999999"), None);
    assert_eq!(parse_i32("-99999999999999999999999999999"), None);
    assert_eq!(parse_i32("21474836470"), None);
}

#[test]
fn reading_integers_agrees_with_the_standard_library() {
    let texts = [
        "", "0", "-0", "+0", "12", "-12", "+12", "2147483647", "2147483648", "-2147483648",
        "-2147483649", "4294967296", "abc", "12abc", "-", "+", "+ 1", "１２",
    ];
    for text in texts {
        assert_eq!(parse_i32(text), text.parse::<i32>().ok());
    }
    for number in [0, 1, -1, 9, 10, -10, 123456789, i32::MAX, i32::MIN] {
        assert_eq!(parse_i32(&number.to_string()), Some(number));
        assert_eq!(integer_text(number), number.to_string());
    }
}

fn listed_as_white_space(c: char) -> bool {
    matches!(
        c,
        '\u{9}'..='\u{d}'
            | ' '
            | '\u{85}'
            | '\u{a0}'
            | '\u{1680}'
            | '\u{2000}'..='\u{200a}'
            | '\u{2028}'
            | '\u{2029}'
            | '\u{202f}'
            | '\u{205f}'
            | '\u{3000}'
    )
}

#[test]
fn trim_removes_the_listed_characters_and_no_others() {
    for c in '\0'..=char::MAX {
        let text = format!("{}x{}", c, c);
        if listed_as_white_space(c) {
            assert_eq!(trim(&text), "x");
        } else {
            assert_eq!(trim(&text), text);
        }
    }
}
