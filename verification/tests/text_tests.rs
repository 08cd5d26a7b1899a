use c1_bridge::text::trim_str;

#[test]
fn trim_removes_exactly_what_std_calls_whitespace() {
    for code in 0u32..=0x10FFFF {
        let Some(c) = char::from_u32(code) else { continue };
        let text = format!("{c}x{c}");
        let expected = if c.is_whitespace() { "x".to_string() } else { text.clone() };
        assert_eq!(trim_str(&text), expected, "code point {code:#x}");
    }
}

#[test]
fn trim_handles_unicode_spaces() {
    assert_eq!(trim_str("\u{3000}\u{2028} Mix \u{a0}\u{85}"), "Mix");
    assert_eq!(trim_str("\u{200b}Mix"), "\u{200b}Mix");
}
