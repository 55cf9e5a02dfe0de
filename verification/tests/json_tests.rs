use service_commons::decimal::decimal_string;
use service_commons::json::{
    clone_members, integer_string, push_item, push_member, quoted, set_member, Json,
};
use service_commons::serde_field_value::{deserialize, serialize, TupleMapVisitor};
use service_commons::status::Status;
use service_commons::text::{remove_all, same_text, starts_with};

#[test]
fn numbers_are_written_in_decimal() {
    assert_eq!(decimal_string(0), "0");
    assert_eq!(decimal_string(7), "7");
    assert_eq!(decimal_string(10), "10");
    assert_eq!(decimal_string(1234567890), "1234567890");
    assert_eq!(decimal_string(u64::MAX), "18446744073709551615");
    assert_eq!(integer_string(0), "0");
    assert_eq!(integer_string(-1), "-1");
    assert_eq!(integer_string(i64::MAX), "9223372036854775807");
    assert_eq!(integer_string(i64::MIN), "-9223372036854775808");
}

#[test]
fn strings_are_quoted_and_escaped() {
    assert_eq!(quoted("abc"), "\"abc\"");
    assert_eq!(quoted(""), "\"\"");
    assert_eq!(quoted("a\"b\\c"), "\"a\\\"b\\\\c\"");
    assert_eq!(quoted("\u{8}\t\n\u{c}\r"), "\"\\b\\t\\n\\f\\r\"");
    assert_eq!(quoted("\u{0}\u{b}\u{1f}"), "\"\\u0000\\u000b\\u001f\"");
    assert_eq!(quoted("\u{7f} /äü€"), "\"\u{7f} /äü€\"");
}

#[test]
fn documents_are_written_as_compact_text() {
    let document = Json::Object(vec![
        ("null".to_string(), Json::Null),
        ("yes".to_string(), Json::Bool(true)),
        ("no".to_string(), Json::Bool(false)),
        ("u".to_string(), Json::UInt(18446744073709551615)),
        ("i".to_string(), Json::Int(-42)),
        ("d".to_string(), Json::Decimal("1.5e3".to_string())),
        ("s".to_string(), Json::Str("a\nb".to_string())),
        ("a".to_string(), Json::Array(vec![Json::UInt(1), Json::Array(vec![]), Json::Null])),
        ("o".to_string(), Json::Object(vec![])),
        ("a \"name\"".to_string(), Json::Array(vec![Json::Object(vec![])])),
    ]);
    let text = document.to_text();
    assert_eq!(
        text,
        r#"{"null":null,"yes":true,"no":false,"u":18446744073709551615,"i":-42,"d":1.5e3,"s":"a\nb","a":[1,[],null],"o":{},"a \"name\"":[{}]}"#
    );
    let parsed: serde_json::Value = serde_json::from_str(&text).unwrap();
    assert_eq!(parsed["a"][0], serde_json::Value::from(1));
    assert_eq!(parsed["s"], serde_json::Value::from("a\nb"));
    assert_eq!(document.clone(), document);
}

#[test]
fn the_member_written_last_is_the_one_found() {
    let document = Json::Object(vec![
        ("a".to_string(), Json::UInt(1)),
        ("b".to_string(), Json::UInt(2)),
        ("a".to_string(), Json::UInt(3)),
    ]);
    assert_eq!(document.get("a"), Some(&Json::UInt(3)));
    assert_eq!(document.get("b"), Some(&Json::UInt(2)));
    assert_eq!(document.get("c"), None);
    assert_eq!(Json::Array(vec![]).get("a"), None);
}

#[test]
fn a_member_that_is_set_again_keeps_its_place() {
    let mut members = Vec::new();
    push_member(&mut members, "a", Json::UInt(1));
    set_member(&mut members, "b", Json::UInt(2));
    set_member(&mut members, "a", Json::UInt(3));
    set_member(&mut members, "c", Json::Null);
    assert_eq!(
        members,
        vec![
            ("a".to_string(), Json::UInt(3)),
            ("b".to_string(), Json::UInt(2)),
            ("c".to_string(), Json::Null),
        ]
    );
    assert_eq!(clone_members(&members), members);
    let mut items = Vec::new();
    push_item(&mut items, Json::Null);
    push_item(&mut items, Json::Bool(true));
    assert_eq!(items, vec![Json::Null, Json::Bool(true)]);
}

#[test]
fn a_document_is_read_by_its_kind() {
    assert_eq!(Json::Str("x".to_string()).as_str(), Some("x"));
    assert_eq!(Json::UInt(1).as_str(), None);
    assert_eq!(Json::UInt(5).as_u64(), Some(5));
    assert_eq!(Json::Int(5).as_u64(), Some(5));
    assert_eq!(Json::Int(-5).as_u64(), None);
    assert_eq!(Json::Decimal("5.0".to_string()).as_u64(), None);
    assert_eq!(Json::UInt(u64::MAX).as_i64(), None);
    assert_eq!(Json::UInt(9223372036854775807).as_i64(), Some(i64::MAX));
    assert_eq!(Json::Int(-5).as_i64(), Some(-5));
    assert_eq!(Json::Bool(true).as_bool(), Some(true));
    assert_eq!(Json::Null.as_bool(), None);
    assert!(Json::Null.is_null());
    assert!(!Json::Bool(false).is_null());
    assert_eq!(Json::Array(vec![Json::Null]).as_array(), Some(&vec![Json::Null]));
    assert_eq!(Json::Null.as_array(), None);
}

#[test]
fn a_pair_is_an_object_with_one_member() {
    let pair = serialize("field", Json::UInt(1));
    assert_eq!(pair.to_text(), r#"{"field":1}"#);
    assert_eq!(deserialize(&pair), Ok(("field", &Json::UInt(1))));
    assert_eq!(TupleMapVisitor::new().expecting(), "a map with one key,value");
    for document in [
        Json::Object(vec![]),
        Json::Object(vec![("a".to_string(), Json::Null), ("b".to_string(), Json::Null)]),
        Json::Array(vec![]),
    ] {
        assert_eq!(
            deserialize(&document).unwrap_err().details,
            Some("Json: expected a map with one key,value".to_string())
        );
    }
}

#[test]
fn the_status_reports_the_version() {
    assert_eq!(Status::new(Some("1.2.3")).version(), "1.2.3");
    assert_eq!(Status::new(None).version(), "UNKNOWN");
    assert_eq!(Status::new(Some("1.2.3")).status().to_text(), r#"{"version":"1.2.3"}"#);
    assert_eq!(Status::new(None).clone(), Status::new(None));
}

#[test]
fn texts_are_compared_and_cut() {
    assert!(starts_with("admin/x", "admin/"));
    assert!(starts_with("admin/", "admin/"));
    assert!(starts_with("x", ""));
    assert!(!starts_with("admin", "admin/"));
    assert!(!starts_with("xadmin/", "admin/"));
    assert_eq!(remove_all("aXbXc", "X"), "abc");
    assert_eq!(remove_all("aaa", "aa"), "a");
    assert_eq!(remove_all("ababa", "aba"), "ba");
    assert_eq!(remove_all("äöü", "ö"), "äü");
    assert_eq!(remove_all("abc", ""), "abc");
    assert_eq!(remove_all("", "x"), "");
    assert_eq!(remove_all("ab", "abc"), "ab");
    assert!(same_text("a", "a"));
    assert!(!same_text("a", "b"));
}

#[test]
fn texts_are_cut_as_the_standard_library_cuts_them() {
    for (text, pattern) in [
        ("admin/admin/x", "admin/"),
        ("aaaa", "aa"),
        ("aaa", "aa"),
        ("abcabcab", "abc"),
        ("xyz", "q"),
        ("éé/é", "é"),
        ("", ""),
    ] {
        assert_eq!(remove_all(text, pattern), text.replace(pattern, ""), "{:?}", (text, pattern));
        assert_eq!(starts_with(text, pattern), text.starts_with(pattern));
    }
}
