use ginger_code::keybinding::{ConflictKind, KeybindingChecker};
use ginger_code::text::{
    bytes_to_hex, first_word_kebab, i64_to_decimal, parse_unsigned_chars, split_lines,
    str_lex_le, to_kebab_case, to_spaced_words, trim_text, u64_to_decimal,
    u64_to_hex,
};

fn chars(s: &str) -> Vec<char> {
    s.chars().collect()
}

#[test]
fn numbers_render_in_decimal_and_hex() {
    assert_eq!(u64_to_decimal(0), "0");
    assert_eq!(u64_to_decimal(1234), "1234");
    assert_eq!(u64_to_decimal(u64::MAX), "18446744073709551615");
    assert_eq!(i64_to_decimal(-5), "-5");
    assert_eq!(i64_to_decimal(i64::MIN), "-9223372036854775808");
    assert_eq!(u64_to_hex(255), "ff");
    assert_eq!(u64_to_hex(0), "0");
    assert_eq!(bytes_to_hex(&[0, 15, 255]), "000fff");
}

#[test]
fn unsigned_parsing_follows_str_parse() {
    assert_eq!(parse_unsigned_chars(&chars("+42"), 100), Some(42));
    assert_eq!(parse_unsigned_chars(&chars("42"), 41), None);
    assert_eq!(parse_unsigned_chars(&chars(""), 100), None);
    assert_eq!(parse_unsigned_chars(&chars("+"), 100), None);
    assert_eq!(parse_unsigned_chars(&chars("4x"), 100), None);
    assert_eq!(parse_unsigned_chars(&chars("-1"), 100), None);
}

#[test]
fn lines_drop_line_ends() {
    let ls: Vec<String> = split_lines(&chars("a\r\nb\n\nc")).into_iter().map(|l| l.into_iter().collect()).collect();
    assert_eq!(ls, vec!["a", "b", "", "c"]);
    let trailing: Vec<String> = split_lines(&chars("x\n")).into_iter().map(|l| l.into_iter().collect()).collect();
    assert_eq!(trailing, vec!["x"]);
}

#[test]
fn trimming_removes_unicode_whitespace() {
    assert_eq!(trim_text("  x y \t\n"), "x y");
    assert_eq!(trim_text("\u{3000}z\u{a0}"), "z");
    assert_eq!(trim_text("   "), "");
}

#[test]
fn camel_case_forms() {
    assert_eq!(to_kebab_case("OpenFile"), "open-file");
    assert_eq!(to_kebab_case("Codex"), "codex");
    assert_eq!(to_spaced_words("OpenFile"), "Open File");
    assert_eq!(first_word_kebab("OpenFile"), "open");
    assert_eq!(first_word_kebab("Ollama"), "ollama");
}

#[test]
fn lexicographic_order_matches_str_order() {
    for (a, b) in [("abc", "abd"), ("b", "a"), ("ab", "abc"), ("", "x"), ("x", "x"), ("Z", "a")] {
        assert_eq!(str_lex_le(a, b), a <= b, "{a} {b}");
    }
}

#[test]
fn lowercase_uses_unicode_rules() {
    let conflicts = KeybindingChecker.check("CMD+Ä", &["cmd+ä".to_string()]);
    assert!(conflicts.iter().any(|c| c.kind == ConflictKind::Ginger));
}
