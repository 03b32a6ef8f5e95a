use tmux_organizer::text::{chars_of, parse_usize, push_decimal, split_chars, split_lines, string_of, trimmed, white_space};

fn lines_std(s: &str) -> Vec<String> {
    s.lines().map(|l| l.to_string()).collect()
}

fn lines_lib(s: &str) -> Vec<String> {
    split_lines(&chars_of(s)).iter().map(|l| string_of(l)).collect()
}

#[test]
fn white_space_matches_char_is_whitespace() {
    for c in (0u32..=0x10ffff).filter_map(char::from_u32) {
        assert_eq!(white_space(c), c.is_whitespace(), "char {:?}", c);
    }
}

#[test]
fn trimmed_matches_str_trim() {
    for s in ["", "  ", " a ", "\tname\n", "\u{3000}x y\u{85}", "abc", "a\u{a0}", "\u{2028}"] {
        assert_eq!(trimmed(s), s.trim());
    }
}

#[test]
fn lines_match_str_lines() {
    for s in ["", "\n", "a", "a\n", "a\r\nb", "a\n\nb\n", "baz\r", "x\r\r\ny", "\r\n\r\n"] {
        assert_eq!(lines_lib(s), lines_std(s), "input {:?}", s);
    }
}

#[test]
fn split_keeps_empty_fields() {
    let parts: Vec<String> = split_chars(&chars_of("a\t\tb\t"), '\t').iter().map(|p| string_of(p)).collect();
    assert_eq!(parts, vec!["a", "", "b", ""]);
    let one: Vec<String> = split_chars(&chars_of(""), '\t').iter().map(|p| string_of(p)).collect();
    assert_eq!(one, vec![""]);
}

#[test]
fn parse_usize_matches_std() {
    for s in ["0", "7", "+7", "+", "", "-1", "12a", "007", "18446744073709551615", "18446744073709551616", "99999999999999999999999", " 1"] {
        assert_eq!(parse_usize(&chars_of(s)), s.parse::<usize>().ok(), "input {:?}", s);
    }
}

#[test]
fn decimal_round_trips_through_parse() {
    for n in [0usize, 1, 9, 10, 42, 1000, 123456789, usize::MAX] {
        let mut s = String::new();
        push_decimal(&mut s, n);
        assert_eq!(s, n.to_string());
        assert_eq!(parse_usize(&chars_of(&s)), Some(n));
    }
}
