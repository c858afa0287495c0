use click::filter::Filter;
use click::list::{handle_list_result, ContextMemory, SortFunc};
use click::rows::{build_specs, check_columns, ColumnExtractor, ListError};
use click::value::Value;

fn text(s: &str) -> Value {
    Value::Text(s.to_string())
}

fn obj(entries: Vec<(&str, Value)>) -> Value {
    Value::Object(entries.into_iter().map(|(k, v)| (k.to_string(), v)).collect())
}

fn resource(name: &str, created: Option<&str>) -> Value {
    let mut meta = vec![("name", text(name)), ("namespace", text("default"))];
    if let Some(c) = created {
        meta.push(("creationTimestamp", text(c)));
    }
    meta.push(("labels", obj(vec![("app", text(name))])));
    obj(vec![
        ("metadata", obj(meta)),
        ("status", obj(vec![("phase", text("Running")), ("restarts", Value::UInt(3))])),
    ])
}

fn cols(names: &[&str]) -> Vec<String> {
    names.iter().map(|s| s.to_string()).collect()
}

fn registry() -> Vec<ColumnExtractor> {
    vec![
        ColumnExtractor { column: "Phase".to_string(), path: "/status/phase".to_string() },
        ColumnExtractor { column: "Restarts".to_string(), path: "/status/restarts".to_string() },
    ]
}

// 2024-01-01T00:00:00Z
const JAN_1: i64 = 1704067200;

fn cell(t: &click::list::ListTable, row: usize, col: usize) -> Option<String> {
    t.rows[row].cells[col].clone()
}

#[test]
fn age_column_with_missing_timestamp() {
    let list = vec![
        resource("a", Some("2024-01-01T00:00:00Z")),
        resource("b", None),
        resource("c", Some("2023-12-31T00:00:00Z")),
    ];
    let now = JAN_1 + 2 * 86400 + 3 * 3600;
    let mut mem = ContextMemory::new();
    let t = handle_list_result(&mut mem, &cols(&["Name", "Age"]), Some(list), &registry(), None, None, false, "pod", now)
        .unwrap();
    assert_eq!(t.rows.len(), 3);
    assert_eq!(cell(&t, 0, 1), Some("2d 3h".to_string()));
    assert_eq!(cell(&t, 1, 1), None);
    assert_eq!(cell(&t, 2, 1), Some("3d 3h".to_string()));
}

#[test]
fn age_sort_puts_youngest_first_and_missing_last() {
    let list = vec![
        resource("old", Some("2023-12-31T00:00:00Z")),
        resource("none", None),
        resource("new", Some("2024-01-01T00:00:00Z")),
    ];
    let mut mem = ContextMemory::new();
    let t = handle_list_result(&mut mem, &cols(&["Name"]), Some(list), &registry(), None, Some(SortFunc::Pre), false, "pod", JAN_1 + 10)
        .unwrap();
    let names: Vec<String> = t.rows.iter().map(|r| r.cells[0].clone().unwrap()).collect();
    assert_eq!(names, vec!["new", "old", "none"]);
}

#[test]
fn rows_are_numbered_and_remembered() {
    let list = vec![resource("x", None), resource("y", None), resource("z", None)];
    let mut mem = ContextMemory::new();
    let t = handle_list_result(&mut mem, &cols(&["Name", "Namespace"]), Some(list), &registry(), None, None, true, "pod", JAN_1)
        .unwrap();
    let idx: Vec<usize> = t.rows.iter().map(|r| r.index).collect();
    assert_eq!(idx, vec![1, 2, 3]);
    assert_eq!(mem.len(), 3);
    assert_eq!(mem.get(0).unwrap().name, "z");
    assert_eq!(mem.get(0).unwrap().kind, "pod");
    assert_eq!(mem.get(0).unwrap().namespace, Some("default".to_string()));
    assert_eq!(mem.get(2).unwrap().name, "x");
    let titles: Vec<&str> = t.titles.iter().map(|s| s.as_str()).collect();
    assert_eq!(titles, vec!["####", "Name", "Namespace"]);
}

#[test]
fn absent_list_clears_memory() {
    let mut mem = ContextMemory::new();
    let _ = handle_list_result(&mut mem, &cols(&["Name"]), Some(vec![resource("x", None)]), &registry(), None, None, false, "pod", JAN_1);
    assert_eq!(mem.len(), 1);
    let r = handle_list_result(&mut mem, &cols(&["Name"]), None, &registry(), None, None, false, "pod", JAN_1);
    assert!(r.is_none());
    assert_eq!(mem.len(), 0);
}

#[test]
fn reverse_after_ascending_sort_is_descending() {
    let list = || vec![resource("b", None), resource("c", None), resource("a", None)];
    let mut mem = ContextMemory::new();
    let asc = handle_list_result(&mut mem, &cols(&["Name"]), Some(list()), &registry(), None,
        Some(SortFunc::Post("Name".to_string())), false, "pod", JAN_1).unwrap();
    let names: Vec<String> = asc.rows.iter().map(|r| r.cells[0].clone().unwrap()).collect();
    assert_eq!(names, vec!["a", "b", "c"]);
    let desc = handle_list_result(&mut mem, &cols(&["Name"]), Some(list()), &registry(), None,
        Some(SortFunc::Post("Name".to_string())), true, "pod", JAN_1).unwrap();
    let names: Vec<String> = desc.rows.iter().map(|r| r.cells[0].clone().unwrap()).collect();
    assert_eq!(names, vec!["c", "b", "a"]);
    assert_eq!(mem.get(0).unwrap().name, "c");
    assert_eq!(desc.rows[0].index, 1);
}

#[test]
fn sort_by_missing_column_warns_and_keeps_order() {
    let list = vec![resource("b", None), resource("a", None)];
    let mut mem = ContextMemory::new();
    let t = handle_list_result(&mut mem, &cols(&["Name"]), Some(list), &registry(), None,
        Some(SortFunc::Post("Phase".to_string())), false, "pod", JAN_1).unwrap();
    assert_eq!(t.warning, Some("Asked to sort by Phase, but it's not a column in the output".to_string()));
    assert_eq!(cell(&t, 0, 0), Some("b".to_string()));
}

#[test]
fn filter_keeps_rows_with_a_matching_cell() {
    let list = vec![resource("apple", None), resource("banana", None), resource("cherry", None)];
    let f = Filter::new("an").ok().unwrap();
    let mut mem = ContextMemory::new();
    let t = handle_list_result(&mut mem, &cols(&["Name", "Phase"]), Some(list), &registry(), Some(&f), None, false, "pod", JAN_1)
        .unwrap();
    assert_eq!(t.rows.len(), 1);
    assert_eq!(cell(&t, 0, 0), Some("banana".to_string()));
    assert_eq!(t.rows[0].index, 1);
    assert_eq!(mem.len(), 1);
}

#[test]
fn filter_on_empty_list_is_empty() {
    let f = Filter::new("x").ok().unwrap();
    let mut mem = ContextMemory::new();
    let t = handle_list_result(&mut mem, &cols(&["Name"]), Some(vec![]), &registry(), Some(&f), None, false, "pod", JAN_1)
        .unwrap();
    assert_eq!(t.rows.len(), 0);
    assert_eq!(mem.len(), 0);
}

#[test]
fn invalid_filter_pattern_is_rejected() {
    assert!(Filter::new("(").is_err());
}

#[test]
fn unknown_column_is_an_error() {
    let r = check_columns(&cols(&["Name", "Bogus"]), &registry());
    match r {
        Err(ListError::UnknownColumn(c)) => assert_eq!(c, "Bogus"),
        _ => panic!("expected an unknown column"),
    }
}

#[test]
fn registered_and_label_columns() {
    let list = vec![resource("x", None)];
    assert!(check_columns(&cols(&["Restarts", "Phase", "Labels"]), &registry()).is_ok());
    let rows = build_specs(&cols(&["Restarts", "Phase", "Labels"]), &list, &registry(), None, "pod", JAN_1);
    assert_eq!(rows.len(), 1);
    assert_eq!(rows[0].1, vec![Some("3".to_string()), Some("Running".to_string()), Some("app=x\n".to_string())]);
    assert_eq!(rows[0].0.name, "x");
}

#[test]
fn column_sort_is_stable_for_equal_text() {
    let list = vec![resource("q", None), resource("p", None), resource("r", None)];
    let mut mem = ContextMemory::new();
    let t = handle_list_result(&mut mem, &cols(&["Name", "Phase"]), Some(list), &registry(), None,
        Some(SortFunc::Post("Phase".to_string())), false, "pod", JAN_1).unwrap();
    let names: Vec<String> = t.rows.iter().map(|r| r.cells[0].clone().unwrap()).collect();
    assert_eq!(names, vec!["q", "p", "r"]);
}
