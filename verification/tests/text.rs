use sn::text::{split_whitespace, trim};

/// The characters with the White_Space property.
fn is_blank(n: u32) -> bool {
    matches!(
        n,
        0x9..=0xd
            | 0x20
            | 0x85
            | 0xa0
            | 0x1680
            | 0x2000..=0x200a
            | 0x2028
            | 0x2029
            | 0x202f
            | 0x205f
            | 0x3000
    )
}

#[test]
fn exactly_the_blank_characters_are_trimmed() {
    for c in (0..=0x10ffff_u32).filter_map(char::from_u32) {
        let kept = trim(&c.to_string());
        assert_eq!(kept.is_empty(), is_blank(c as u32), "{:x}", c as u32);
    }
    assert_eq!(trim("\u{a0}\u{3000} a b\u{85}\n"), "a b");
    assert_eq!(trim("\u{200b}a\u{feff}"), "\u{200b}a\u{feff}");
}

#[test]
fn words_are_split_at_every_blank_character() {
    assert_eq!(
        split_whitespace("\ta\u{2003}b\u{2028}\u{2029}c "),
        vec!["a", "b", "c"]
    );
    assert!(split_whitespace("\u{1680}\u{202f}").is_empty());
}
