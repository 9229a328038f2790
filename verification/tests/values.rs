use mcpls_core::decimal::{decimal_text, parse_unsigned};
use mcpls_core::digest::{sha256_hex, to_hex};
use mcpls_core::json::{
    json_number, json_str, json_strings, render, rendered_len, JsonNumber, JsonObject, JsonValue,
};
use mcpls_core::paths::{sort_distinct, FilePath};
use mcpls_core::text::{
    comes_before, contains_text, floor_char_boundary, slice_text, split_once_char,
    strip_prefix_text, truncate_str, utf8_len,
};

fn sample() -> JsonObject {
    let mut inner = JsonObject::new();
    inner.put("b", JsonValue::Number(JsonNumber::Negative(-3)));
    inner.put("a", JsonValue::Null);
    let mut fields = JsonObject::new();
    fields.put("z", JsonValue::Array(vec![json_number(1), JsonValue::Bool(false)]));
    fields.put("é", json_str("tab\t\"quote\" \u{1} λ"));
    fields.put("a", inner.into_value());
    fields
}

#[test]
fn json_is_written_as_serde_writes_it() {
    let value = sample().into_value();
    let text = render(&value);
    assert_eq!(
        text,
        "{\"z\":[1,false],\"é\":\"tab\\t\\\"quote\\\" \\u0001 λ\",\"a\":{\"b\":-3,\"a\":null}}"
    );
    assert_eq!(rendered_len(&value), text.len());
    let parsed: serde_json::Value = serde_json::from_str(&text).unwrap();
    assert_eq!(
        serde_json::to_string(&parsed).unwrap(),
        render(&value.keyed())
    );
}

#[test]
fn maps_are_in_key_order_and_keep_the_last_entry() {
    let mut fields = sample();
    fields.put("z", json_str("later"));
    let map = fields.into_map();
    assert_eq!(map.get("z").unwrap().as_str(), Some("later"));
    assert!(render(&map).starts_with("{\"a\":"));
    assert_eq!(map.get("missing"), None);
}

#[test]
fn objects_replace_and_find_entries() {
    let mut fields = sample();
    fields.insert("z", json_number(5));
    fields.insert("new", json_strings(&vec!["x".to_owned()]));
    assert_eq!(fields.get("z").unwrap().as_u64(), Some(5));
    assert_eq!(render(fields.get("new").unwrap()), "[\"x\"]");
    assert!(fields.get("a").unwrap().get("a").unwrap().is_null());
    assert_eq!(fields.get("a").unwrap().duplicate(), *fields.get("a").unwrap());
}

#[test]
fn decimals_round_trip() {
    for value in [0, 7, 10, 123, u64::MAX] {
        assert_eq!(decimal_text(value), value.to_string());
        assert_eq!(parse_unsigned(&value.to_string(), u64::MAX), Some(value));
    }
    assert_eq!(parse_unsigned("+7", u64::MAX), Some(7));
    assert_eq!(parse_unsigned("007", u64::MAX), Some(7));
    assert_eq!(parse_unsigned("256", 255), None);
    assert_eq!(parse_unsigned("18446744073709551616", u64::MAX), None);
    for text in ["", "+", "-0", " 1", "1 ", "x"] {
        assert_eq!(parse_unsigned(text, u64::MAX), None);
    }
}

#[test]
fn digests_are_known() {
    assert_eq!(
        sha256_hex("abc"),
        "ba7816bf8f01cfea414140de5dae2223b00361a396177a9cb410ff61f20015ad"
    );
    assert_eq!(
        sha256_hex(""),
        "e3b0c44298fc1c149afbf4c8996fb92427ae41e4649b934ca495991b7852b855"
    );
    assert_eq!(to_hex(&vec![0, 0xff, 0x1a]), "00ff1a");
}

#[test]
fn texts_are_cut_at_characters() {
    assert_eq!(utf8_len("aλ"), 3);
    assert_eq!(floor_char_boundary("aλb", 2), 1);
    assert_eq!(floor_char_boundary("aλb", 3), 3);
    assert_eq!(floor_char_boundary("aλb", 4), 4);
    assert_eq!(slice_text("aλb", 1, 3), "λ");
    assert_eq!(truncate_str("short", 100), "short");
    assert_eq!(truncate_str(&"x".repeat(200), 100).len(), 100 + 15);
    assert!(truncate_str(&"λ".repeat(200), 100).ends_with("... (truncated)"));
}

#[test]
fn texts_are_searched_and_split() {
    assert!(contains_text("stale_symbol_handle: x", "symbol"));
    assert!(contains_text("x", ""));
    assert!(!contains_text("", "x"));
    assert_eq!(strip_prefix_text("a:b", "a:").as_deref(), Some("b"));
    assert_eq!(strip_prefix_text("a:b", "b"), None);
    assert_eq!(
        split_once_char("a?b?c", '?'),
        Some(("a".to_owned(), "b?c".to_owned()))
    );
    assert_eq!(split_once_char("abc", '?'), None);
    for (left, right) in [("a", "b"), ("a", "aa"), ("", "a"), ("b", "a"), ("é", "z")] {
        assert_eq!(comes_before(left, right), left < right);
    }
}

#[test]
fn paths_are_compared_by_component() {
    let path = FilePath::new("/workspace/src/lib.rs");
    assert_eq!(
        path.relative_to(&FilePath::new("/workspace")).as_deref(),
        Some("src/lib.rs")
    );
    assert_eq!(path.relative_to(&FilePath::new("/work")), None);
    assert_eq!(path.file_name().as_deref(), Some("lib.rs"));
    assert!(path.same_path(&FilePath::new("/workspace//src/./lib.rs")));
    assert!(path.absolute());
    assert!(!FilePath::new("src").absolute());
    let sorted = sort_distinct(&vec![
        FilePath::new("/a-b"),
        FilePath::new("/a/c"),
        FilePath::new("/a-b"),
    ]);
    assert_eq!(sorted, vec![FilePath::new("/a/c"), FilePath::new("/a-b")]);
}

#[test]
fn texts_are_measured_at_every_depth() {
    let mut inner = JsonObject::new();
    inner.put("four", json_str("five!"));
    let value = JsonValue::Array(vec![JsonValue::Null, JsonValue::Object(inner)]);
    assert!(value.has_texts_within(5));
    assert!(!value.has_texts_within(4));
    let mut long_key = JsonObject::new();
    long_key.put("longer", JsonValue::Null);
    assert!(!JsonValue::Object(long_key).has_texts_within(5));
}
