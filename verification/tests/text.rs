use codex_runtime::text::chars::is_ascii_alphanumeric;
use codex_runtime::text::chars::is_control;
use codex_runtime::text::chars::is_whitespace;
use codex_runtime::text::chars::to_ascii_lower;
use codex_runtime::text::chars::trim_chars;
use codex_runtime::text::number::parse_unsigned;
use codex_runtime::text::number::to_decimal;
use codex_runtime::text::search::find_text;
use codex_runtime::text::split::split_at;
use codex_runtime::text::split::split_words;
use codex_runtime::text_map::TextMap;

fn chars(text: &str) -> Vec<char> {
    text.chars().collect()
}

#[test]
fn character_classes_agree_with_the_standard_library() {
    for c in '\0'..=char::MAX {
        assert_eq!(is_whitespace(c), c.is_whitespace());
        assert_eq!(is_control(c), c.is_control());
        assert_eq!(is_ascii_alphanumeric(c), c.is_ascii_alphanumeric());
        assert_eq!(to_ascii_lower(c), c.to_ascii_lowercase());
    }
}

#[test]
fn texts_are_split_and_trimmed() {
    assert_eq!(split_at(&chars("a,,b"), ','), vec![chars("a"), chars(""), chars("b")]);
    assert_eq!(split_at(&chars(""), ','), vec![chars("")]);
    assert_eq!(split_words(&chars(" a \t bc\n")), vec![chars("a"), chars("bc")]);
    assert_eq!(trim_chars(&chars("\u{3000} x ")), chars("x").as_slice());
    assert_eq!(find_text(&chars("ababc"), &chars("abc")), Some(2));
    assert_eq!(find_text(&chars("ab"), &chars("abc")), None);
}

#[test]
fn numbers_are_read_and_written() {
    assert_eq!(parse_unsigned(&chars("+65535"), 10, 65535), Some(65535));
    assert_eq!(parse_unsigned(&chars("65536"), 10, 65535), None);
    assert_eq!(parse_unsigned(&chars("fF"), 16, u32::MAX), Some(255));
    assert_eq!(parse_unsigned(&chars(""), 10, 9), None);
    assert_eq!(parse_unsigned(&chars("1x"), 10, 99), None);
    assert_eq!(to_decimal(1205), chars("1205"));
}

#[test]
fn maps_are_ordered_by_key() {
    let mut map = TextMap::new();
    for key in ["b", "a", "aa", "b"] {
        map.insert(key.to_string(), key.len());
    }
    assert_eq!(map.len(), 3);
    assert_eq!(map.keys(), vec!["a".to_string(), "aa".to_string(), "b".to_string()]);
    assert_eq!(map.get("aa"), Some(&2));
    assert_eq!(map.remove("a"), Some(1));
    assert!(!map.contains_key("a"));
    assert_eq!(map.into_entries().len(), 2);
}
