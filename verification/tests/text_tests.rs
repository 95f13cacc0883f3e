use stellar_api::text::{
    address_of, compare_text, dash_text, is_whitespace_char, trim_text, TextOrder,
};

#[test]
fn compare_text_orders_by_code_point() {
    assert_eq!(compare_text("apple", "apricot"), TextOrder::Less);
    assert_eq!(compare_text("b", "a"), TextOrder::Greater);
    assert_eq!(compare_text("", ""), TextOrder::Equal);
    assert_eq!(compare_text("ab", "a"), TextOrder::Greater);
    assert_eq!(compare_text("a", "ab"), TextOrder::Less);
    assert_eq!(compare_text("é", "z"), TextOrder::Greater);
    assert_eq!(compare_text("Zed", "alpha"), TextOrder::Less);
    assert_eq!(compare_text("same", "same"), TextOrder::Equal);
}

#[test]
fn compare_text_agrees_with_str_ordering() {
    let words = ["", "a", "ab", "b", "Z", "é", "ü", "日本", "a b", "a-b"];
    for x in words.iter() {
        for y in words.iter() {
            let expected = match x.cmp(y) {
                std::cmp::Ordering::Less => TextOrder::Less,
                std::cmp::Ordering::Equal => TextOrder::Equal,
                std::cmp::Ordering::Greater => TextOrder::Greater,
            };
            assert_eq!(compare_text(x, y), expected);
        }
    }
}

#[test]
fn trim_text_strips_unicode_white_space_at_both_ends() {
    assert_eq!(trim_text("\t x y \n"), "x y");
    assert_eq!(trim_text("   "), "");
    assert_eq!(trim_text(""), "");
    assert_eq!(trim_text("\u{3000}wide\u{00a0}"), "wide");
    assert_eq!(trim_text("inner  space"), "inner  space");
}

#[test]
fn dash_text_replaces_every_space() {
    assert_eq!(dash_text("a b  c"), "a-b--c");
    assert_eq!(dash_text("none"), "none");
    assert_eq!(dash_text("tab\tkept"), "tab\tkept");
}

#[test]
fn address_of_normalises_names() {
    assert_eq!(address_of("Alice Doe"), "alice-doe");
    assert_eq!(address_of("  Ünïcode Näme "), "ünïcode-näme");
    assert_eq!(address_of("ALREADY-hyphen"), "already-hyphen");
    assert_eq!(address_of(""), "");
}

#[test]
fn whitespace_matches_std_for_every_char() {
    for v in 0..=0x10FFFFu32 {
        if let Some(c) = char::from_u32(v) {
            assert_eq!(is_whitespace_char(c), c.is_whitespace(), "code point {:#x}", v);
        }
    }
}
