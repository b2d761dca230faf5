//! Texts, orders, tables and models.

use peakbot::models::{ModelRegistry, ResolvedModel};
use peakbot::order::{arrange_by_number, arrange_by_text, sort_strings, text_before};
use peakbot::table::TextMap;
use peakbot::text::{
    ascii_lowercase_text, byte_length, char_is_space, decimal_text, join_text, parse_size_text,
    signed_text, split_text, strip_text_prefix, text_is_blank, text_starts_with, trim_text,
    truncate_with_suffix,
};

#[test]
fn white_space_is_unicode_white_space() {
    for u in 0..=0x10ffffu32 {
        if let Some(c) = char::from_u32(u) {
            assert_eq!(char_is_space(c), c.is_whitespace(), "U+{u:04X}");
        }
    }
}

#[test]
fn trimming_is_as_in_the_standard_library() {
    for s in ["", "  ", " a b ", "\u{a0}x\u{3000}", "é\n", "\u{200b}x"] {
        assert_eq!(trim_text(s), s.trim());
        assert_eq!(text_is_blank(s), s.trim().is_empty());
    }
}

#[test]
fn numbers_are_written_and_read() {
    for n in [0u64, 7, 10, 99, 100, 4096, u64::MAX] {
        assert_eq!(decimal_text(n), n.to_string());
    }
    for i in [0, 1, -1, i32::MAX, i32::MIN] {
        assert_eq!(signed_text(i), i.to_string());
    }
    for s in ["", "+", "-1", "+7", "007", "12a", " 1", "18446744073709551615", "18446744073709551616", "٣"] {
        assert_eq!(parse_size_text(s), s.parse::<usize>().ok(), "{s:?}");
    }
}

#[test]
fn truncation_keeps_whole_characters() {
    assert_eq!(truncate_with_suffix("abc", 3, "…"), "abc");
    assert_eq!(truncate_with_suffix("abcd", 3, "…"), "abc…");
    assert_eq!(truncate_with_suffix("aéé", 4, "…"), "aé…");
    assert_eq!(truncate_with_suffix("éé", 1, "..."), "...");
    assert_eq!(byte_length("aé→🛰"), "aé→🛰".len());
}

#[test]
fn pieces_of_texts() {
    assert!(text_starts_with("/load 1", "/load"));
    assert!(!text_starts_with("/lo", "/load"));
    assert_eq!(strip_text_prefix("/load 1", "/load").as_deref(), Some(" 1"));
    assert_eq!(strip_text_prefix("x", "y"), None);
    assert_eq!(split_text("a=b=c", '='), ("a".to_string(), Some("b=c".to_string())));
    assert_eq!(split_text("abc", '='), ("abc".to_string(), None));
    assert_eq!(ascii_lowercase_text("AÉz-Q"), "aÉz-q");
    let parts = vec!["a".to_string(), String::new(), "c".to_string()];
    assert_eq!(join_text(&parts, ", "), "a, , c");
    assert_eq!(join_text(&[], ", "), "");
}

#[test]
fn texts_are_ordered_as_by_the_standard_library() {
    let words = ["", "a", "B", "ab", "é", "z", "🛰", "a b"];
    for x in words {
        for y in words {
            assert_eq!(text_before(x, y), x <= y, "{x:?} {y:?}");
        }
    }
    let mut sorted: Vec<String> = words.iter().map(|s| s.to_string()).collect();
    let mine = sort_strings(&sorted);
    sorted.sort();
    assert_eq!(mine, sorted);
}

#[test]
fn equal_keys_keep_their_order() {
    assert_eq!(arrange_by_number(&vec![3, 1, 3, -2, 1]), vec![3, 1, 4, 0, 2]);
    let keys = vec!["b".to_string(), "a".to_string(), "b".to_string()];
    assert_eq!(arrange_by_text(&keys), vec![1, 0, 2]);
}

#[test]
fn a_table_keeps_the_order_of_first_insertion() {
    let mut t = TextMap::new();
    assert!(t.is_empty());
    t.insert("x".to_string(), "1".to_string());
    t.insert("y".to_string(), "2".to_string());
    t.insert("x".to_string(), "3".to_string());
    assert_eq!(t.len(), 2);
    assert_eq!(t.names(), vec!["x", "y"]);
    assert_eq!(t.get("x").map(String::as_str), Some("3"));
    assert!(t.contains_key("y"));
    assert_eq!(t.get("z"), None);
    assert_eq!(t.copy(), t);
}

#[test]
fn models_are_found_by_alias_and_by_wire_name() {
    let model = |alias: &str, provider: &str| ResolvedModel {
        alias: alias.to_string(),
        provider_name: provider.to_string(),
        model_name: "m".to_string(),
        context_size: 1,
    };
    let r = ModelRegistry {
        models: vec![model("b", "p"), model("a", "q")],
        default_alias: "b".to_string(),
    };
    assert_eq!(r.resolve("a").map(|m| m.provider_name.as_str()), Some("q"));
    assert!(r.resolve("c").is_none());
    assert_eq!(r.find_by_wire_id("p", "m").map(|m| m.alias.as_str()), Some("b"));
    assert!(r.find_by_wire_id("p", "n").is_none());
    assert_eq!(r.default_alias(), "b");
    assert_eq!(r.aliases_sorted(), vec!["a", "b"]);
}
