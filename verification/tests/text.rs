use hibp_rs::hex::{hex_digit, to_hex_upper};
use hibp_rs::text::{
    chars_of, find_char, is_white_space_char, next_line, parse_decimal, push_decimal, string_of,
    to_ascii_upper, to_ascii_upper_char, trim,
};

fn decimal(text: &str) -> Option<u64> {
    let chars: Vec<char> = text.chars().collect();
    parse_decimal(&chars, 0, chars.len())
}

#[test]
fn chars_of_gives_the_characters_in_order() {
    assert_eq!(chars_of(""), Vec::<char>::new());
    assert_eq!(chars_of("a\u{e9}\u{1f600}:"), vec!['a', '\u{e9}', '\u{1f600}', ':']);
}

#[test]
fn find_char_finds_the_first_in_the_range() {
    let chars = chars_of("a:b:c");
    assert_eq!(find_char(&chars, ':', 0, 5), 1);
    assert_eq!(find_char(&chars, ':', 1, 5), 1);
    assert_eq!(find_char(&chars, ':', 2, 5), 3);
    assert_eq!(find_char(&chars, ':', 4, 5), 5);
    assert_eq!(find_char(&chars, ':', 2, 3), 3);
    assert_eq!(find_char(&chars, ':', 2, 2), 2);
    assert_eq!(find_char(&chars, 'x', 0, 5), 5);
    assert_eq!(find_char(&Vec::new(), 'x', 0, 0), 0);
}

#[test]
fn string_of_copies_the_range() {
    let chars = chars_of("h\u{e9}llo");
    assert_eq!(string_of(&chars, 0, 5), "h\u{e9}llo");
    assert_eq!(string_of(&chars, 1, 3), "\u{e9}l");
    assert_eq!(string_of(&chars, 4, 4), "");
}

#[test]
fn next_line_gives_the_end_of_the_line_and_the_start_of_the_next() {
    let chars = chars_of("ab\r\ncd\n\nef");
    assert_eq!(next_line(&chars, 0), (2, 4));
    assert_eq!(next_line(&chars, 1), (2, 4));
    assert_eq!(next_line(&chars, 2), (2, 4));
    assert_eq!(next_line(&chars, 3), (3, 4));
    assert_eq!(next_line(&chars, 4), (6, 7));
    assert_eq!(next_line(&chars, 7), (7, 8));
    assert_eq!(next_line(&chars, 8), (10, 10));
    let chars = chars_of("ab\r");
    assert_eq!(next_line(&chars, 0), (3, 3));
}

#[test]
fn parse_decimal_reads_numbers() {
    assert_eq!(decimal("0"), Some(0));
    assert_eq!(decimal("7"), Some(7));
    assert_eq!(decimal("1234567890"), Some(1234567890));
    assert_eq!(decimal("+42"), Some(42));
    assert_eq!(decimal("0042"), Some(42));
    assert_eq!(decimal("18446744073709551615"), Some(u64::MAX));
    assert_eq!(decimal("+18446744073709551615"), Some(u64::MAX));
    assert_eq!(decimal("018446744073709551615"), Some(u64::MAX));
}

#[test]
fn parse_decimal_refuses_everything_else() {
    for text in [
        "", "+", "-", "-1", "++1", "+-1", "1+", " 1", "1 ", "1.0", "1e3", "0x10", "a", "1a",
        "18446744073709551616", "18446744073709551620", "99999999999999999999",
        "100000000000000000000000000000", "\u{661}", "\u{ff11}",
    ] {
        assert_eq!(decimal(text), None, "text {:?}", text);
    }
}

#[test]
fn parse_decimal_reads_a_range_only() {
    let chars = chars_of("ab123cd");
    assert_eq!(parse_decimal(&chars, 2, 5), Some(123));
    assert_eq!(parse_decimal(&chars, 2, 4), Some(12));
    assert_eq!(parse_decimal(&chars, 1, 5), None);
    assert_eq!(parse_decimal(&chars, 2, 6), None);
    assert_eq!(parse_decimal(&chars, 3, 3), None);
}

#[test]
fn parse_decimal_agrees_with_the_standard_library() {
    let alphabet = ['0', '1', '9', '+', '-', ' ', 'a', ':'];
    let mut texts = vec![String::new()];
    for _ in 0..4 {
        let mut longer = Vec::new();
        for text in &texts {
            for c in alphabet {
                let mut next = text.clone();
                next.push(c);
                longer.push(next);
            }
        }
        texts.extend(longer);
    }
    for n in [u64::MAX - 1, u64::MAX, u64::MAX / 10, u64::MAX / 10 + 1, 1 << 63] {
        texts.push(n.to_string());
        texts.push(format!("{}0", n));
        texts.push(format!("{}9", n));
        texts.push(format!("+{}", n));
    }
    for text in texts {
        assert_eq!(decimal(&text), text.parse::<u64>().ok(), "text {:?}", text);
    }
}

#[test]
fn push_decimal_writes_numbers() {
    for n in [0u64, 1, 9, 10, 11, 99, 100, 404, 65535, 1234567890, u64::MAX] {
        let mut text = String::from("n=");
        push_decimal(&mut text, n);
        assert_eq!(text, format!("n={}", n));
        assert_eq!(decimal(&text[2..]), Some(n));
    }
}

#[test]
fn trim_takes_white_space_off_both_ends() {
    assert_eq!(trim(""), "");
    assert_eq!(trim("   "), "");
    assert_eq!(trim("a"), "a");
    assert_eq!(trim("  a b  "), "a b");
    assert_eq!(trim("\t\r\n a\u{a0}b \u{3000}\u{2028}"), "a\u{a0}b");
    assert_eq!(trim("\u{feff}a"), "\u{feff}a");
    assert_eq!(trim("\u{200b}a\u{200b}"), "\u{200b}a\u{200b}");
}

#[test]
fn white_space_is_what_the_standard_library_takes_for_it() {
    for code in 0..=0x10FFFFu32 {
        if let Some(c) = char::from_u32(code) {
            assert_eq!(is_white_space_char(c), c.is_whitespace(), "U+{:04X}", code);
        }
    }
}

#[test]
fn trim_agrees_with_the_standard_library() {
    let pieces = ["", " ", "\t", "\n", "\u{a0}", "\u{85}", "\u{1680}", "\u{200a}", "\u{200b}", "x", "x y"];
    for a in pieces {
        for b in pieces {
            for c in pieces {
                let text = format!("{}{}{}", a, b, c);
                assert_eq!(trim(&text), text.trim(), "text {:?}", text);
            }
        }
    }
}

#[test]
fn hex_digits_are_upper_case() {
    let digits: String = (0u8..16).map(hex_digit).collect();
    assert_eq!(digits, "0123456789ABCDEF");
}

#[test]
fn to_hex_upper_writes_two_digits_for_each_byte() {
    assert_eq!(to_hex_upper(&[]), "");
    assert_eq!(to_hex_upper(&[0x00]), "00");
    assert_eq!(to_hex_upper(&[0x0a, 0xb0, 0xff, 0x7e]), "0AB0FF7E");
    let all: Vec<u8> = (0..=255).collect();
    let expected: String = all.iter().map(|b| format!("{:02X}", b)).collect();
    assert_eq!(to_hex_upper(&all), expected);
}

#[test]
fn ascii_letters_are_brought_to_upper_case() {
    assert_eq!(to_ascii_upper(""), "");
    assert_eq!(to_ascii_upper("abcxyz"), "ABCXYZ");
    assert_eq!(to_ascii_upper("ABCXYZ"), "ABCXYZ");
    assert_eq!(to_ascii_upper("0123456789abcdef"), "0123456789ABCDEF");
    assert_eq!(to_ascii_upper("`a{z@[ :"), "`A{Z@[ :");
    assert_eq!(to_ascii_upper("\u{e9}t\u{e9} \u{df}"), "\u{e9}T\u{e9} \u{df}");
}

#[test]
fn upper_case_is_what_the_standard_library_takes_for_it() {
    for code in 0..=0x10FFFFu32 {
        if let Some(c) = char::from_u32(code) {
            assert_eq!(to_ascii_upper_char(c), c.to_ascii_uppercase(), "U+{:04X}", code);
        }
    }
    for text in ["", "c6008f9cab", "MiXeD 123", "\u{e9}\u{1f600}z"] {
        assert_eq!(to_ascii_upper(text), text.to_ascii_uppercase());
    }
}
