use hc_web_leptos::json::{
    compact_json, deep_clone, json_eq, json_get, json_get_index, json_string, make_array, make_object, str_array_of,
    str_field, str_field_or, str_list_at, u64_field, i64_field, bool_field, Json, JsonNumber,
};
use hc_web_leptos::sort::{sort_by_keys, text_compare, KeyPart};
use hc_web_leptos::text::{
    contains, chars_of, i64_decimal, join_strings, list_has, parse_i64_chars, parse_u32_chars,
    parse_u64_chars, trim, u64_decimal,
};

fn string_of(v: &Vec<char>) -> String {
    v.iter().collect()
}

fn s(x: &str) -> Json {
    Json::Str(x.to_string())
}

fn n(x: u64) -> Json {
    Json::Number(JsonNumber::PosInt(x))
}

fn obj(entries: Vec<(&str, Json)>) -> Json {
    Json::Object(entries.into_iter().map(|(k, v)| (k.to_string(), v)).collect())
}

#[test]
fn trim_strips_unicode_whitespace_at_both_ends() {
    assert_eq!(trim("  hello world \t\n"), "hello world");
    assert_eq!(trim("\u{00A0}x\u{3000}"), "x");
    assert_eq!(trim("   "), "");
    assert_eq!(trim(""), "");
}

#[test]
fn decimal_rendering() {
    assert_eq!(string_of(&u64_decimal(0)), "0");
    assert_eq!(string_of(&u64_decimal(18446744073709551615)), "18446744073709551615");
    assert_eq!(string_of(&i64_decimal(-42)), "-42");
    assert_eq!(string_of(&i64_decimal(i64::MIN)), "-9223372036854775808");
}

#[test]
fn integer_parsing_accepts_rust_forms_only() {
    assert_eq!(parse_i64_chars(&chars_of("-17")), Some(-17));
    assert_eq!(parse_i64_chars(&chars_of("+5")), Some(5));
    assert_eq!(parse_i64_chars(&chars_of("")), None);
    assert_eq!(parse_i64_chars(&chars_of("-")), None);
    assert_eq!(parse_i64_chars(&chars_of("1.5")), None);
    assert_eq!(parse_i64_chars(&chars_of("9223372036854775808")), None);
    assert_eq!(parse_u32_chars(&chars_of("4294967295")), Some(4294967295));
    assert_eq!(parse_u32_chars(&chars_of("4294967296")), None);
    assert_eq!(parse_u32_chars(&chars_of("-1")), None);
    assert_eq!(parse_u64_chars(&chars_of("007")), Some(7));
    assert_eq!(parse_u64_chars(&chars_of(" 7")), None);
}

#[test]
fn substring_and_join_helpers() {
    assert!(contains(&chars_of("living room lamp"), &chars_of("room")));
    assert!(contains(&chars_of("abc"), &chars_of("")));
    assert!(!contains(&chars_of("abc"), &chars_of("abcd")));
    let parts = vec!["a".to_string(), "b".to_string(), "c".to_string()];
    assert_eq!(join_strings(&parts, ", "), "a, b, c");
    assert_eq!(join_strings(&vec![], ", "), "");
    assert!(list_has(&parts, "b"));
    assert!(!list_has(&parts, "B"));
}

#[test]
fn compact_json_matches_serde_layout() {
    let j = obj(vec![
        ("a", n(1)),
        ("b", make_array(vec![Json::Bool(true), Json::Null, s("x\"y")])),
        ("c", Json::Number(JsonNumber::NegInt(-3))),
        ("d", Json::Number(JsonNumber::Float("2.5".to_string()))),
    ]);
    assert_eq!(compact_json(&j), "{\"a\":1,\"b\":[true,null,\"x\\\"y\"],\"c\":-3,\"d\":2.5}");
    assert_eq!(compact_json(&s("line\nbreak")), "\"line\\nbreak\"");
}

#[test]
fn object_lookup_takes_the_first_entry() {
    let j = obj(vec![("k", n(1)), ("k", n(2)), ("name", s("Lamp"))]);
    assert_eq!(compact_json(json_get(&j, "k").unwrap()), "1");
    assert_eq!(json_get_index(&j, "name"), Some(2));
    assert!(json_get(&j, "missing").is_none());
    assert!(json_get(&s("x"), "k").is_none());
    assert_eq!(str_field(&j, "name"), Some("Lamp".to_string()));
    assert_eq!(str_field(&j, "k"), None);
    assert_eq!(str_field_or(&j, "nope", "dflt"), "dflt");
    assert_eq!(u64_field(&j, "k"), Some(1));
    assert_eq!(i64_field(&j, "k"), Some(1));
    assert_eq!(bool_field(&j, "k"), None);
}

#[test]
fn deep_clone_and_equality() {
    let j = obj(vec![("list", make_array(vec![n(1), s("two")])), ("flag", Json::Bool(false))]);
    let c = deep_clone(&j);
    assert!(json_eq(&j, &c));
    assert_eq!(compact_json(&c), compact_json(&j));
    assert!(!json_eq(&j, &obj(vec![("flag", Json::Bool(false))])));
    assert!(!json_eq(&n(1), &Json::Number(JsonNumber::Float("1.0".to_string()))));
}

#[test]
fn string_lists_roundtrip_through_json() {
    let v = vec!["x".to_string(), "y".to_string()];
    let arr = str_array_of(&v);
    assert_eq!(compact_json(&arr), "[\"x\",\"y\"]");
    let holder = make_object(vec![("ids".to_string(), arr)]);
    assert_eq!(str_list_at(&holder, "ids"), v);
    let mixed = obj(vec![("ids", make_array(vec![s("a"), n(3), s("b")]))]);
    assert_eq!(str_list_at(&mixed, "ids"), vec!["a".to_string(), "b".to_string()]);
    assert!(str_list_at(&mixed, "other").is_empty());
    assert_eq!(compact_json(&json_string("q")), "\"q\"");
}

#[test]
fn text_compare_is_lexicographic_by_char() {
    assert_eq!(text_compare(&"apple".to_string(), &"banana".to_string()), -1);
    assert_eq!(text_compare(&"b".to_string(), &"a".to_string()), 1);
    assert_eq!(text_compare(&"ab".to_string(), &"ab".to_string()), 0);
    assert_eq!(text_compare(&"ab".to_string(), &"abc".to_string()), -1);
}

#[test]
fn sort_by_keys_is_stable_both_ways() {
    let items = vec!["b1", "a", "b2", "c"];
    let keys = vec![
        vec![KeyPart::Text("b".to_string())],
        vec![KeyPart::Text("a".to_string())],
        vec![KeyPart::Text("b".to_string())],
        vec![KeyPart::Text("c".to_string())],
    ];
    let asc = sort_by_keys(items.clone(), keys, false);
    assert_eq!(asc, vec!["a", "b1", "b2", "c"]);
    let keys2 = vec![
        vec![KeyPart::Int(2), KeyPart::Text("x".to_string())],
        vec![KeyPart::Int(1)],
        vec![KeyPart::Int(2), KeyPart::Text("x".to_string())],
        vec![KeyPart::Int(3)],
    ];
    let desc = sort_by_keys(items, keys2, true);
    assert_eq!(desc, vec!["c", "b1", "b2", "a"]);
}
