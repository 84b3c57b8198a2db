use waybar_modules::text::{
    chars_of, format_i64, format_u64, is_whitespace_char, parse_i32, push_repeated,
    push_replaced, split_words, str_eq, string_from_chars, trimmed_len,
};

#[test]
fn decimal_formatting() {
    assert_eq!(format_u64(0), "0");
    assert_eq!(format_u64(7), "7");
    assert_eq!(format_u64(1234567890), "1234567890");
    assert_eq!(format_u64(u64::MAX), u64::MAX.to_string());
    assert_eq!(format_i64(-42), "-42");
    assert_eq!(format_i64(0), "0");
    assert_eq!(format_i64(i64::MIN), i64::MIN.to_string());
    assert_eq!(format_i64(i64::MAX), i64::MAX.to_string());
}

#[test]
fn parse_like_std() {
    let cases = [
        "0", "+12", "-12", "007", "2147483647", "2147483648", "-2147483648", "-2147483649", "",
        "-", "+", "12a", " 1", "1 ", "99999999999999999999", "-0", "+-1", "٣",
    ];
    for c in cases {
        assert_eq!(parse_i32(c), c.parse::<i32>().ok(), "input {:?}", c);
    }
    assert_eq!(parse_i32("-2147483648"), Some(i32::MIN));
    assert_eq!(parse_i32("22625563"), Some(22625563));
}

#[test]
fn parse_reads_back_formatted_numbers() {
    for n in [0i32, 1, -1, 42, -2255, i32::MAX, i32::MIN] {
        assert_eq!(parse_i32(format_i64(n as i64).as_str()), Some(n));
    }
}

#[test]
fn whitespace_like_std() {
    for c in ['\t', '\n', '\u{b}', '\u{c}', '\r', ' ', '\u{85}', '\u{a0}', '\u{1680}', '\u{2000}', '\u{200a}', '\u{2028}', '\u{2029}', '\u{202f}', '\u{205f}', '\u{3000}', 'a', '\u{200b}', '\u{180e}', 'é', '0'] {
        assert_eq!(is_whitespace_char(c), c.is_whitespace(), "char {:?}", c);
    }
}

#[test]
fn words_like_split_whitespace() {
    let cases = [" a\tb  c\n", "", "   ", "linux 6.1 -> 6.2", "x\u{3000}y\u{a0}z", "end "];
    for c in cases {
        let expected: Vec<String> = c.split_whitespace().map(|s| s.to_string()).collect();
        assert_eq!(split_words(c), expected, "input {:?}", c);
    }
}

#[test]
fn replace_and_repeat() {
    let mut out = String::from(">");
    push_replaced(&mut out, "a-b-c", '-', "  ");
    assert_eq!(out, ">a  b  c");
    let mut out2 = String::new();
    push_repeated(&mut out2, "¯", 3);
    assert_eq!(out2, "¯¯¯");
    let mut out3 = String::from("x");
    push_repeated(&mut out3, "ab", 0);
    assert_eq!(out3, "x");
}

#[test]
fn trimming_like_trim_end() {
    for c in ["abc \n\t", "  ", "", "a b", "x\u{3000}"] {
        let chars = chars_of(c);
        let k = trimmed_len(&chars);
        let kept: Vec<char> = chars[..k].to_vec();
        assert_eq!(string_from_chars(&kept), c.trim_end());
    }
}

#[test]
fn string_equality() {
    assert!(str_eq("eth0", "eth0"));
    assert!(!str_eq("eth0", "eth1"));
    assert!(!str_eq("eth0", "eth"));
    assert!(str_eq("", ""));
}
