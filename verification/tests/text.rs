use dns_checker::text::{is_whitespace, opt_owned, push_decimal, push_hex, trim};

#[test]
fn whitespace_is_that_of_unicode() {
    for n in 0..=0x10FFFFu32 {
        if let Some(c) = char::from_u32(n) {
            assert_eq!(is_whitespace(c), c.is_whitespace(), "U+{:04X}", n);
        }
    }
}

#[test]
fn trim_takes_whitespace_off_both_ends() {
    let cases = [
        ("", ""),
        (" ", ""),
        (" \t\r\n\u{3000}", ""),
        ("8.8.8.8", "8.8.8.8"),
        ("  8.8.8.8\n", "8.8.8.8"),
        ("\u{a0}a b\u{2003}", "a b"),
        ("检 测 ", "检 测"),
    ];
    for (text, inner) in cases {
        assert_eq!(trim(text), inner);
        assert_eq!(trim(text), text.trim());
        assert_eq!(trim(&trim(text)), inner);
    }
}

#[test]
fn numbers_are_written_as_usual() {
    for n in [0, 7, 9, 10, 53, 100, 1080, 65535, u64::MAX] {
        let mut decimal = "n=".to_string();
        push_decimal(&mut decimal, n);
        assert_eq!(decimal, format!("n={}", n));
        let mut hex = "rep=".to_string();
        push_hex(&mut hex, n);
        assert_eq!(hex, format!("rep={:#x}", n));
    }
}

#[test]
fn optional_text_is_copied() {
    assert_eq!(opt_owned(None), None);
    assert_eq!(opt_owned(Some("a")), Some("a".to_string()));
}
