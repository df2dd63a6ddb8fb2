use indexed_run::evaluator::{Evaluator, TestMock};
use indexed_run::records::{
    record_bool, record_duration, record_int_field, record_nonnegative_usize, record_path, record_positive_u64,
    record_str, PathValue,
};
use indexed_run::testing::{
    intercept_test_host_call, test_contains_value, test_error_kind, test_failure, test_record_matches,
    test_temp_path, test_value_matches,
};
use indexed_run::value::{ErrorValue, Span, Value};

fn span() -> Span {
    Span::new(1, 2, 3)
}

fn s(text: &str) -> Value {
    Value::Str(text.to_string())
}

fn entries(pairs: Vec<(&str, Value)>) -> Vec<(String, Value)> {
    pairs.into_iter().map(|(k, v)| (k.to_string(), v)).collect()
}

fn error(kind: &str) -> Value {
    Value::Error(Box::new(ErrorValue {
        kind: kind.to_string(),
        message: "m".to_string(),
        family: String::new(),
        variant: String::new(),
        facets: vec![],
    }))
}

#[test]
fn record_fields_are_read_by_type() {
    let rec = entries(vec![("name", s("x")), ("flag", Value::Bool(true)), ("n", Value::Int(4)), ("d", Value::Duration(20))]);
    assert_eq!(record_str(&rec, "name", None, span()).unwrap(), "x");
    assert_eq!(record_str(&rec, "other", Some("dflt"), span()).unwrap(), "dflt");
    assert!(record_bool(&rec, "flag", false, span()).unwrap());
    assert!(record_bool(&rec, "missing", true, span()).unwrap());
    assert_eq!(record_nonnegative_usize(&rec, "n", 9, span()).unwrap(), 4);
    assert_eq!(record_nonnegative_usize(&rec, "missing", 9, span()).unwrap(), 9);
    assert_eq!(record_positive_u64(&rec, "missing", 7, span()).unwrap(), 7);
    assert_eq!(record_duration(&rec, "d", span()).unwrap(), Some(20));
    assert_eq!(record_duration(&rec, "missing", span()).unwrap(), None);
    assert_eq!(record_int_field(&rec, "n", "missing-n", span()).unwrap(), 4);
}

#[test]
fn record_field_errors_name_the_field() {
    let rec = entries(vec![("name", Value::Int(1)), ("n", Value::Int(-1)), ("flag", s("yes"))]);
    let e = record_str(&rec, "name", None, span()).unwrap_err();
    assert_eq!((e.kind.as_str(), e.message.as_str(), e.span), ("type-error", "name expected Str, found Int", Some(span())));
    let e = record_str(&rec, "absent", None, span()).unwrap_err();
    assert_eq!((e.kind.as_str(), e.message.as_str()), ("missing-field", "missing `absent`"));
    let e = record_nonnegative_usize(&rec, "n", 0, span()).unwrap_err();
    assert_eq!((e.kind.as_str(), e.message.as_str()), ("range-error", "n cannot be negative"));
    let e = record_bool(&rec, "flag", false, span()).unwrap_err();
    assert_eq!(e.message, "flag expected Bool, found Str");
    let e = record_int_field(&rec, "flag", "k", span()).unwrap_err();
    assert_eq!((e.kind.as_str(), e.message.as_str()), ("type-error", "expected `flag` to be Int, found Str"));
    let e = record_int_field(&rec, "absent", "no-field", span()).unwrap_err();
    assert_eq!((e.kind.as_str(), e.message.as_str()), ("no-field", "missing `absent` field"));
}

#[test]
fn paths_come_from_paths_and_strings() {
    let rec = entries(vec![("p", Value::Path(b"/a".to_vec())), ("q", s("b/c")), ("z", s("a\0b")), ("i", Value::Int(1))]);
    assert_eq!(record_path(&rec, "p", span()).unwrap().bytes, b"/a".to_vec());
    assert_eq!(record_path(&rec, "q", span()).unwrap().bytes, b"b/c".to_vec());
    let e = record_path(&rec, "z", span()).unwrap_err();
    assert_eq!((e.kind.as_str(), e.message.as_str()), ("path", "paths cannot contain NUL"));
    let e = record_path(&rec, "i", span()).unwrap_err();
    assert_eq!(e.message, "i expected Path, found Int");
    let joined = PathValue { bytes: b"/tmp".to_vec() }.join_text("x").unwrap();
    assert_eq!(joined.bytes, b"/tmp/x".to_vec());
    let joined = PathValue { bytes: b"/tmp/".to_vec() }.join_text("x").unwrap();
    assert_eq!(joined.bytes, b"/tmp/x".to_vec());
}

#[test]
fn containment_covers_strings_bytes_and_lists() {
    assert!(test_contains_value(&s("hello"), &s("ell")));
    assert!(!test_contains_value(&s("hello"), &s("z")));
    assert!(test_contains_value(&Value::Bytes(vec![1, 2, 3]), &Value::Bytes(vec![2, 3])));
    assert!(test_contains_value(&Value::Bytes(vec![1]), &Value::Bytes(vec![])));
    assert!(test_contains_value(&Value::List(vec![Value::Int(1), s("a")]), &s("a")));
    assert!(!test_contains_value(&Value::List(vec![Value::Int(1)]), &Value::Int(2)));
    assert!(!test_contains_value(&Value::Int(1), &Value::Int(1)));
}

#[test]
fn error_kinds_are_seen_through_results() {
    assert_eq!(test_error_kind(&error("io")), Some("io".to_string()));
    assert_eq!(test_error_kind(&Value::ResultErr(Box::new(error("parse")))), Some("parse".to_string()));
    assert_eq!(test_error_kind(&Value::ResultOk(Box::new(error("inner")))), Some("inner".to_string()));
    assert_eq!(test_error_kind(&Value::Int(1)), None);
    match test_failure("boom".to_string()) {
        Value::ResultErr(e) => assert_eq!(test_error_kind(&e), Some("test-fail".to_string())),
        other => panic!("unexpected {:?}", other),
    }
}

#[test]
fn records_match_on_the_expected_fields() {
    let expected = Value::Record(entries(vec![("a", Value::Int(1))]));
    let actual = Value::Record(entries(vec![("a", Value::Int(1)), ("b", Value::Int(2))]));
    assert!(test_value_matches(&expected, &actual));
    assert!(!test_value_matches(&actual, &expected));
    assert!(test_record_matches(&entries(vec![]), &entries(vec![("x", Value::Null)])));
    assert!(test_value_matches(&Value::Int(3), &Value::Int(3)));
    assert!(!test_value_matches(&Value::Int(3), &s("3")));
}

#[test]
fn temporary_paths_are_numbered_under_the_root() {
    let mut ev = Evaluator::new(vec![], b"/".to_vec());
    let ctx = entries(vec![("temp_root", Value::Path(b"/tmp/t".to_vec()))]);
    let p = test_temp_path(&mut ev, &ctx, "a/b:c", span()).unwrap();
    assert_eq!(p.bytes, b"/tmp/t/a_b_c-1".to_vec());
    let p = test_temp_path(&mut ev, &ctx, "  ", span()).unwrap();
    assert_eq!(p.bytes, b"/tmp/t/tmp-2".to_vec());
    assert_eq!(ev.test_temp_counter, 2);
    let e = test_temp_path(&mut ev, &entries(vec![]), "x", span()).unwrap_err();
    assert_eq!(e.message, "missing `temp_root`");
    assert_eq!(ev.test_temp_counter, 2);
}

#[test]
fn host_calls_are_recorded_and_answered_by_mocks() {
    let mut ev = Evaluator::new(vec![], b"/".to_vec());
    assert!(intercept_test_host_call(&mut ev, "fs.read", entries(vec![]), span()).is_none());
    ev.test_mocks.push((
        "fs.read".to_string(),
        vec![TestMock { matcher: entries(vec![("path", s("a"))]), result: Value::Int(7), remaining: 1 }],
    ));
    let answer = intercept_test_host_call(&mut ev, "fs.read", entries(vec![("path", s("a")), ("n", Value::Int(1))]), span());
    assert!(matches!(answer, Some(Value::Int(7))));
    assert_eq!(ev.test_mocks[0].1[0].remaining, 0);
    let answer = intercept_test_host_call(&mut ev, "fs.read", entries(vec![("path", s("a"))]), span());
    match answer {
        Some(Value::ResultErr(e)) => match *e {
            Value::Error(err) => {
                assert_eq!(err.kind, "test-unmatched-mock");
                assert_eq!(err.message, "no mock matched host operation `fs.read`");
            }
            other => panic!("unexpected {:?}", other),
        },
        other => panic!("unexpected {:?}", other),
    }
    assert_eq!(ev.test_calls.len(), 3);
    assert_eq!(ev.test_calls[1].op, "fs.read");
}
