use anthropic_messages::text::{
    is_blank, is_white_space, parse_u64, same_text, split_once, starts_with, strip_prefix,
    strip_suffix,
};

const TEXTS: [&str; 9] = ["", "a", "ab", "b", "é", "éa", "aé", " \u{3000}", "ab;é"];

#[test]
fn white_space_is_that_of_unicode() {
    for code in 0..=0x10ffff_u32 {
        if let Some(c) = char::from_u32(code) {
            assert_eq!(is_white_space(c), c.is_whitespace(), "{code:x}");
        }
    }
}

#[test]
fn texts_are_compared_and_cut_as_std_does() {
    for text in TEXTS {
        assert_eq!(is_blank(text), text.trim().is_empty());
        assert_eq!(split_once(text, ';'), text.split_once(';'));
        for part in TEXTS {
            assert_eq!(same_text(text, part), text == part);
            assert_eq!(starts_with(text, part), text.starts_with(part));
            assert_eq!(strip_prefix(text, part), text.strip_prefix(part));
            assert_eq!(strip_suffix(text, part), text.strip_suffix(part));
        }
    }
}

#[test]
fn numbers_are_read_as_std_does() {
    for text in [
        "", "+", "-", "0", "00", "+1", "-1", "++1", " 1", "1 ", "1a", "12345678901234567890",
        "18446744073709551615", "18446744073709551616", "99999999999999999999999",
        "000000000000000000000000001", "١",
    ] {
        assert_eq!(parse_u64(text), text.parse::<u64>().ok(), "{text}");
    }
}
