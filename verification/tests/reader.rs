use bootstrap::json::{doc_object, doc_objs, FieldVal, Scalar};
use bootstrap::strutil;

#[test]
fn objects_keep_scalars_in_order_and_skip_the_rest() {
    let body = br#" { "a": 1, "b": "two", "c": null, "d": true, "e": {"nested": [1,2]}, "f": [ "x", "y" ] } "#;
    let fields = doc_object(body).unwrap();
    assert_eq!(fields.len(), 5);
    assert_eq!(fields[0].0, "a");
    assert!(matches!(fields[0].1, FieldVal::Sc(Scalar::UInt(1))));
    assert!(matches!(&fields[1].1, FieldVal::Sc(Scalar::Str(s)) if s == "two"));
    assert!(matches!(fields[2].1, FieldVal::Sc(Scalar::Null)));
    assert!(matches!(fields[3].1, FieldVal::Sc(Scalar::Bool(true))));
    assert_eq!(fields[4].0, "f");
    assert!(matches!(&fields[4].1, FieldVal::Strs(v) if v == &vec!["x", "y"]));
}

#[test]
fn escapes_and_limits() {
    let body = br#"{"s": "a\"b\\c\nd\te/f"}"#;
    let fields = doc_object(body).unwrap();
    assert!(matches!(&fields[0].1, FieldVal::Sc(Scalar::Str(s)) if s == "a\"b\\c\nd\te/f"));

    // numbers larger than 64 bits are refused, not wrapped
    assert!(doc_object(br#"{"n": 18446744073709551615}"#).is_some());
    assert!(doc_object(br#"{"n": 18446744073709551616}"#).is_none());
    // trailing text is refused
    assert!(doc_object(br#"{"n": 1} trailing"#).is_none());
    // unknown escapes are refused in kept strings
    assert!(doc_object(br#"{"s": "a\qb"}"#).is_none());
}

#[test]
fn arrays_of_objects() {
    let body = br#"[ {"a": 1}, {}, {"b": "x"} ]"#;
    let items = doc_objs(body).unwrap();
    assert_eq!(items.len(), 3);
    assert_eq!(items[0].len(), 1);
    assert_eq!(items[1].len(), 0);
    assert!(doc_objs(br#"[ 1, 2 ]"#).is_none());
    assert_eq!(doc_objs(br#" [ ] "#).unwrap().len(), 0);
}

#[test]
fn string_helpers() {
    assert_eq!(strutil::u64_to_string(0), "0");
    assert_eq!(strutil::u64_to_string(907), "907");
    assert_eq!(strutil::u64_to_string(u64::MAX), "18446744073709551615");
    assert_eq!(strutil::trim_end_matches("a.flist.flist", ".flist"), "a");
    assert_eq!(strutil::trim_end_matches("a.flist.x", ".flist"), "a.flist.x");
    assert_eq!(strutil::concat3("a", "/", "b"), "a/b");
    let (head, tail) = strutil::split_once_char("key=value=more", '=');
    assert_eq!(head, "key");
    assert_eq!(tail.as_deref(), Some("value=more"));
    let (head, tail) = strutil::split_once_char("bare", '=');
    assert_eq!(head, "bare");
    assert!(tail.is_none());
}
