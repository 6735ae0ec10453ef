use codex_goals::text::{
    chars_of, comes_before, has_line, matches_at, parse_u32, push_decimal, push_signed_decimal,
    push_zero_padded, same_text, starts_with, trimmed,
};

#[test]
fn numbers_are_written_like_std_writes_them() {
    for n in [0u64, 1, 9, 10, 99, 100, 1234567890, u64::MAX] {
        let mut text = String::new();
        push_decimal(&mut text, n);
        assert_eq!(text, n.to_string());
        let mut padded = "x".to_string();
        push_zero_padded(&mut padded, n, 4);
        assert_eq!(padded, format!("x{n:04}"));
    }
    for i in [0i64, -1, 7, -10, i64::MAX, i64::MIN] {
        let mut text = String::new();
        push_signed_decimal(&mut text, i);
        assert_eq!(text, i.to_string());
    }
}

#[test]
fn numbers_are_read_like_std_reads_them() {
    for text in ["0", "0007", "+1", "+", "", "-1", "4294967295", "4294967296", "1 ", "x", "\u{663}"]
    {
        let chars = chars_of(text);
        assert_eq!(parse_u32(&chars, 0, chars.len()), text.parse::<u32>().ok());
    }
}

#[test]
fn strings_are_ordered_like_std_orders_them() {
    let samples = ["", "a", "b", "ab", "goal-1", "goal-10", "goal-2", "\u{e9}", "\u{10000}", "\u{ffff}"];
    for a in samples {
        for b in samples {
            assert_eq!(comes_before(a, b), a < b);
            assert_eq!(same_text(a, b), a == b);
            assert_eq!(starts_with(a, b), a.starts_with(b));
        }
    }
}

#[test]
fn lines_are_those_of_std() {
    let texts = ["", "a", "a\n", "a\r\nb", "a\rb\n", "\n\na", "a\r", "a\r\r\n", "b\n\na\n"];
    for text in texts {
        for line in ["", "a", "b", "a\r", "a\rb"] {
            assert_eq!(has_line(text, line), text.lines().any(|found| found == line));
        }
    }
}

#[test]
fn trimming_is_that_of_std() {
    let texts = ["", " ", "a", " a ", "\t\n a b \r\n", "\u{a0}a\u{3000}", "\u{200b}a", "\u{85}\u{2028}"];
    for text in texts {
        assert_eq!(trimmed(text), text.trim());
    }
}

#[test]
fn white_space_is_that_of_std() {
    for code in 0u32..=0x10ffff {
        if let Some(c) = char::from_u32(code) {
            let listed = matches!(
                c,
                '\u{9}'..='\u{d}'
                    | ' '
                    | '\u{85}'
                    | '\u{a0}'
                    | '\u{1680}'
                    | '\u{2000}'..='\u{200a}'
                    | '\u{2028}'
                    | '\u{2029}'
                    | '\u{202f}'
                    | '\u{205f}'
                    | '\u{3000}'
            );
            assert_eq!(c.is_whitespace(), listed);
        }
    }
}

#[test]
fn parts_are_found_in_place() {
    let whole = chars_of("round-1");
    assert!(matches_at(&whole, 0, &chars_of("round")));
    assert!(matches_at(&whole, 6, &chars_of("1")));
    assert!(matches_at(&whole, 7, &chars_of("")));
    assert!(!matches_at(&whole, 1, &chars_of("round-")));
}
