use click::age::{format_duration, time_since};
use click::command::{list_settings, mapped_val, uppercase_first, valid_date, valid_duration, valid_u32};
use click::list::SortFunc;
use click::value::Value;

#[test]
fn durations() {
    assert_eq!(format_duration(59), "59s");
    assert_eq!(format_duration(61), "1m 1s");
    assert_eq!(format_duration(3661), "1h 1m");
    assert_eq!(format_duration(90000), "1d 1h");
    assert_eq!(format_duration(400 * 86400), "1y 35d");
    assert_eq!(format_duration(-5), "-5s");
    assert_eq!(time_since(1000, 940), "1m 0s");
}

#[test]
fn uppercase_first_letter() {
    assert_eq!(uppercase_first("hello"), "Hello");
    assert_eq!(uppercase_first(""), "");
    assert_eq!(uppercase_first("ßa"), "SSa");
}

#[test]
fn u32_validation() {
    assert!(valid_u32("42".to_string()).is_ok());
    assert!(valid_u32("+7".to_string()).is_ok());
    assert!(valid_u32("-1".to_string()).is_err());
    assert!(valid_u32("4294967296".to_string()).is_err());
    assert!(valid_u32("".to_string()).is_err());
}

#[test]
fn mapped_values() {
    let m = vec![("name".to_string(), "Name".to_string()), ("name".to_string(), "Other".to_string())];
    assert_eq!(mapped_val("name", &m), Some("Name".to_string()));
    assert_eq!(mapped_val("age", &m), None);
}

#[test]
fn settings_pick_sort_and_extra_columns() {
    let base = vec!["Name".to_string()];
    let col_map = vec![("name".to_string(), "Name".to_string())];
    let extra = vec![("namespace".to_string(), "Namespace".to_string()), ("node".to_string(), "Node".to_string())];
    let st = list_settings(&base, Some("NODE"), &col_map, Some(&extra), &vec![], true, true).ok().unwrap();
    assert_eq!(st.cols, vec!["Name", "Namespace", "Node", "Labels"]);
    assert!(matches!(st.sort, Some(SortFunc::Post(ref c)) if c == "Node"));
    let st = list_settings(&base, Some("Age"), &col_map, None, &vec![], false, false).ok().unwrap();
    assert!(matches!(st.sort, Some(SortFunc::Pre)));
    assert_eq!(st.cols, vec!["Name"]);
    assert!(list_settings(&base, Some("bogus"), &col_map, None, &vec![], false, false).is_err());
}

#[test]
fn pointer_paths() {
    let v = Value::Object(vec![("a".to_string(), Value::Object(vec![("b".to_string(), Value::UInt(5))]))]);
    assert!(matches!(v.pointer("/a/b"), Some(Value::UInt(5))));
    assert!(v.pointer("/a/c").is_none());
    assert!(v.pointer("a").is_none());
    assert!(v.pointer("").is_some());
    assert_eq!(v.u64_at("/a/b"), Some(5));
}

#[test]
fn duration_and_date_validation() {
    assert!(valid_duration("2h 30m".to_string()).is_ok());
    assert!(valid_duration("soon".to_string()).is_err());
    assert!(valid_date("2024-01-01T00:00:00Z".to_string()).is_ok());
    assert!(valid_date("2024-01-01".to_string()).is_err());
}

#[test]
fn pointer_arrays_and_escapes() {
    let v = Value::Object(vec![
        ("a/b".to_string(), Value::UInt(1)),
        ("m~n".to_string(), Value::UInt(2)),
        ("list".to_string(), Value::Array(vec![Value::UInt(10), Value::UInt(11)])),
    ]);
    assert_eq!(v.u64_at("/a~1b"), Some(1));
    assert_eq!(v.u64_at("/m~0n"), Some(2));
    assert_eq!(v.u64_at("/list/1"), Some(11));
    assert_eq!(v.u64_at("/list/01"), None);
    assert_eq!(v.u64_at("/list/2"), None);
    assert_eq!(v.u64_at("/list/+1"), None);
}

#[test]
fn error_texts_of_validators() {
    assert_eq!(valid_u32("0".to_string()), Ok(()));
    assert_eq!(valid_u32("4294967295".to_string()), Ok(()));
    assert_eq!(valid_u32("4294967296".to_string()), Err("number too large to fit in target type".to_string()));
    assert_eq!(valid_u32("".to_string()), Err("cannot parse integer from empty string".to_string()));
    assert_eq!(valid_u32("-1".to_string()), Err("invalid digit found in string".to_string()));
    assert_eq!(valid_u32("12a".to_string()), Err("invalid digit found in string".to_string()));
}

#[test]
fn overlong_durations_are_rejected_without_panic() {
    assert_eq!(
        valid_duration("18446744073709551615s 1000000000ns".to_string()),
        Err("duration has too many digits".to_string())
    );
    assert!(valid_duration("99999999999y".to_string()).is_ok());
    assert!(valid_duration("1x".to_string()).is_err());
}
