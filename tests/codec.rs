use process_store::codec::{actions_or_empty, decode_actions, encode_actions};
use process_store::rows::{completed_pair_from_row, process_from_row};
use process_store::StoreError;

fn strings(v: &[&str]) -> Vec<String> {
    v.iter().map(|s| s.to_string()).collect()
}

fn round_trip(v: &[&str]) {
    let items = strings(v);
    let text = encode_actions(&items);
    assert_eq!(decode_actions(&text), Some(items));
}

#[test]
fn round_trip_empty_single_and_delimiters() {
    round_trip(&[]);
    round_trip(&["call client"]);
    round_trip(&["a,b", "[x]", "say \"hi\"", "back\\slash", "", "\\\"", "ü ✓"]);
}

#[test]
fn encoding_is_quoted_list() {
    assert_eq!(encode_actions(&strings(&[])), "[]");
    assert_eq!(encode_actions(&strings(&["a", "b"])), "[\"a\",\"b\"]");
    assert_eq!(encode_actions(&strings(&["q\"", "s\\"])), "[\"q\\\"\",\"s\\\\\"]");
}

#[test]
fn malformed_text_decodes_to_none() {
    assert_eq!(decode_actions(""), None);
    assert_eq!(decode_actions("call, file"), None);
    assert_eq!(decode_actions("[\"a\""), None);
    assert_eq!(decode_actions("[\"a\"]x"), None);
    assert_eq!(decode_actions("[\"a\",]"), None);
    assert_eq!(actions_or_empty("not a list"), Vec::<String>::new());
    assert_eq!(actions_or_empty("[\"x\"]"), strings(&["x"]));
}

fn row(cells: &[Option<&str>]) -> Vec<Option<String>> {
    cells.iter().map(|c| c.map(|s| s.to_string())).collect()
}

#[test]
fn row_with_every_column_reads_whole() {
    let r = row(&[
        Some("id"),
        Some("N-1"),
        Some("appeal"),
        Some("open"),
        Some("2024-05-01"),
        Some("legal"),
        Some("[\"a\"]"),
        Some("note"),
        Some("2024-01-01 00:00:00"),
        Some("2024-01-02 00:00:00"),
    ]);
    let p = process_from_row(&r).unwrap();
    assert_eq!(p.id, "id");
    assert_eq!(p.process_type, "appeal");
    assert_eq!(p.pending_actions, "[\"a\"]");
    assert_eq!(p.pending_action_list(), strings(&["a"]));
    assert_eq!(p.summary, Some("note".to_string()));
    assert_eq!(p.updated_at, "2024-01-02 00:00:00");
}

#[test]
fn row_missing_optional_columns_degrades() {
    let r = row(&[
        Some("id"),
        Some("N-1"),
        Some("appeal"),
        Some("open"),
        Some("2024-05-01"),
        Some("legal"),
        None,
        None,
        Some("t1"),
        Some("t2"),
    ]);
    let p = process_from_row(&r).unwrap();
    assert_eq!(p.pending_actions, "[]");
    assert_eq!(actions_or_empty(&p.pending_actions), Vec::<String>::new());
    assert_eq!(p.summary, None);
}

#[test]
fn row_missing_required_column_fails() {
    let r = row(&[
        Some("id"),
        Some("N-1"),
        None,
        Some("open"),
        Some("2024-05-01"),
        Some("legal"),
        None,
        None,
        Some("t1"),
        Some("t2"),
    ]);
    match process_from_row(&r) {
        Err(StoreError::MissingColumn(c)) => assert_eq!(c, "type"),
        other => panic!("unexpected {:?}", other),
    }
    match process_from_row(&row(&[Some("id")])) {
        Err(StoreError::MissingColumn(c)) => assert_eq!(c, "number"),
        other => panic!("unexpected {:?}", other),
    }
}

#[test]
fn rows_read_whole_or_fail() {
    let good = row(&[
        Some("id"), Some("N"), Some("t"), Some("s"), Some("d"), Some("f"), None, None, Some("c"), Some("u"),
    ]);
    let bad = row(&[
        Some("id2"), Some("N"), Some("t"), Some("s"), Some("d"), Some("f"), None, None, None, Some("u"),
    ]);
    let ok = process_store::rows::processes_from_rows(&vec![good.clone(), good.clone()]).unwrap();
    assert_eq!(ok.len(), 2);
    assert_eq!(ok[1].id, "id");
    match process_store::rows::processes_from_rows(&vec![good, bad]) {
        Err(StoreError::MissingColumn(c)) => assert_eq!(c, "created_at"),
        other => panic!("unexpected {:?}", other),
    }
    assert!(process_store::rows::processes_from_rows(&vec![]).unwrap().is_empty());
}

#[test]
fn completion_row_reads_pair() {
    let (p, a) = completed_pair_from_row(&row(&[Some("p1"), Some("call")])).unwrap();
    assert_eq!((p.as_str(), a.as_str()), ("p1", "call"));
    match completed_pair_from_row(&row(&[Some("p1")])) {
        Err(StoreError::MissingColumn(c)) => assert_eq!(c, "action_text"),
        other => panic!("unexpected {:?}", other),
    }
    match completed_pair_from_row(&row(&[None, Some("x")])) {
        Err(StoreError::MissingColumn(c)) => assert_eq!(c, "process_id"),
        other => panic!("unexpected {:?}", other),
    }
}
