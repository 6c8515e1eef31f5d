use process_store::{
    Column, CompletedAction, Process, ProcessData, ProcessStore, ProcessUpdates, StoreError,
};
use process_store::update::{apply_statement, build_update};

fn data(number: &str) -> ProcessData {
    ProcessData {
        number: number.to_string(),
        process_type: "appeal".to_string(),
        status: "open".to_string(),
        due_date: "2024-05-01".to_string(),
        forwarding: "legal".to_string(),
        pending_actions: "[\"call\",\"file\"]".to_string(),
        summary: Some("first note".to_string()),
    }
}

fn no_updates() -> ProcessUpdates {
    ProcessUpdates {
        number: None,
        process_type: None,
        status: None,
        due_date: None,
        forwarding: None,
        pending_actions: None,
        summary: None,
    }
}

fn same(a: &Process, b: &Process) -> bool {
    a.id == b.id
        && a.number == b.number
        && a.process_type == b.process_type
        && a.status == b.status
        && a.due_date == b.due_date
        && a.forwarding == b.forwarding
        && a.pending_actions == b.pending_actions
        && a.summary == b.summary
        && a.created_at == b.created_at
        && a.updated_at == b.updated_at
}

#[test]
fn create_then_list_gives_one_new_entry() {
    let mut s = ProcessStore::new();
    s.add_process_with(data("A-1"), "id-1".to_string(), "2024-01-01 10:00:00".to_string())
        .unwrap();
    let p = s
        .add_process_with(data("B-2"), "id-2".to_string(), "2024-01-02 10:00:00".to_string())
        .unwrap();
    assert_eq!(p.id, "id-2");
    assert_eq!(p.number, "B-2");
    assert_eq!(p.created_at, "2024-01-02 10:00:00");
    assert_eq!(p.created_at, p.updated_at);
    let all = s.get_all_processes();
    assert_eq!(all.len(), 2);
    assert!(same(&all[0], &p));
    assert_eq!(all[1].id, "id-1");
}

#[test]
fn add_with_fresh_identifier() {
    let mut s = ProcessStore::new();
    let p = s.add_process(data("C-3")).unwrap();
    assert_eq!(p.id.len(), 36);
    assert_eq!(p.id.chars().nth(8), Some('-'));
    assert_eq!(p.id.chars().nth(23), Some('-'));
    assert_eq!(p.created_at.len(), 19);
    assert_eq!(p.created_at, p.updated_at);
    assert_eq!(s.get_all_processes().len(), 1);
}

#[test]
fn duplicate_identifier_is_refused() {
    let mut s = ProcessStore::new();
    s.add_process_with(data("A"), "x".to_string(), "t1".to_string()).unwrap();
    let r = s.add_process_with(data("B"), "x".to_string(), "t2".to_string());
    assert!(matches!(r, Err(StoreError::DuplicateId)));
    assert_eq!(s.get_all_processes().len(), 1);
}

#[test]
fn update_changes_only_supplied_fields() {
    let mut s = ProcessStore::new();
    let before = s
        .add_process_with(data("A-1"), "id-1".to_string(), "2024-01-01 10:00:00".to_string())
        .unwrap();
    let mut u = no_updates();
    u.status = Some("closed".to_string());
    u.summary = Some("done".to_string());
    let after = s
        .update_process_with(&"id-1".to_string(), &u, "2024-02-01 09:00:00".to_string())
        .unwrap();
    assert_eq!(after.status, "closed");
    assert_eq!(after.summary, Some("done".to_string()));
    assert_eq!(after.number, before.number);
    assert_eq!(after.process_type, before.process_type);
    assert_eq!(after.due_date, before.due_date);
    assert_eq!(after.forwarding, before.forwarding);
    assert_eq!(after.pending_actions, before.pending_actions);
    assert_eq!(after.created_at, before.created_at);
    assert_eq!(after.updated_at, "2024-02-01 09:00:00");
    assert!(after.updated_at >= before.updated_at);
    assert!(same(&s.get_all_processes()[0], &after));
}

#[test]
fn empty_update_is_refused() {
    let mut s = ProcessStore::new();
    let before = s.add_process_with(data("A"), "id".to_string(), "t1".to_string()).unwrap();
    let r = s.update_process_with(&"id".to_string(), &no_updates(), "t2".to_string());
    assert!(matches!(r, Err(StoreError::NothingToUpdate)));
    assert!(same(&s.get_all_processes()[0], &before));
}

#[test]
fn update_of_unknown_process_is_not_found() {
    let mut s = ProcessStore::new();
    let mut u = no_updates();
    u.number = Some("N".to_string());
    let r = s.update_process_with(&"missing".to_string(), &u, "t".to_string());
    assert!(matches!(r, Err(StoreError::NotFound)));
    assert_eq!(s.get_all_processes().len(), 0);
}

#[test]
fn toggle_twice_marks_then_unmarks() {
    let mut s = ProcessStore::new();
    let pid = "p1".to_string();
    let act = "call, \"client\"".to_string();
    assert!(s.toggle_action_completion_with(&pid, &act, "c1".to_string(), "t1".to_string()).unwrap());
    let g = s.get_completed_actions();
    assert_eq!(g.len(), 1);
    assert_eq!(g[0].process_id, "p1");
    assert_eq!(g[0].actions, vec![act.clone()]);
    assert!(!s.toggle_action_completion_with(&pid, &act, "c2".to_string(), "t2".to_string()).unwrap());
    assert_eq!(s.get_completed_actions().len(), 0);
    assert!(s.toggle_action_completion(&pid, &act).unwrap());
    assert_eq!(s.completed[0].id.len(), 36);
}

#[test]
fn completed_actions_grouped_by_process() {
    let mut s = ProcessStore::new();
    for (p, a) in [("p1", "a"), ("p2", "b"), ("p1", "c")] {
        assert!(s.toggle_action_completion_with(
            &p.to_string(),
            &a.to_string(),
            format!("{}{}", p, a),
            "t".to_string()
        )
        .unwrap());
    }
    let g = s.get_completed_actions();
    assert_eq!(g.len(), 2);
    assert_eq!(g[0].process_id, "p1");
    assert_eq!(g[0].actions, vec!["a".to_string(), "c".to_string()]);
    assert_eq!(g[1].process_id, "p2");
    assert_eq!(g[1].actions, vec!["b".to_string()]);
}

#[test]
fn delete_twice_keeps_completion_marks() {
    let mut s = ProcessStore::new();
    s.add_process_with(data("A"), "id".to_string(), "t".to_string()).unwrap();
    s.add_process_with(data("B"), "other".to_string(), "t".to_string()).unwrap();
    s.toggle_action_completion_with(&"id".to_string(), &"call".to_string(), "c".to_string(), "t".to_string())
        .unwrap();
    s.delete_process(&"id".to_string());
    s.delete_process(&"id".to_string());
    let all = s.get_all_processes();
    assert_eq!(all.len(), 1);
    assert_eq!(all[0].id, "other");
    let marks: &Vec<CompletedAction> = &s.completed;
    assert_eq!(marks.len(), 1);
    assert_eq!(marks[0].process_id, "id");
}

#[test]
fn update_statement_in_column_order() {
    let mut u = no_updates();
    u.summary = Some("s".to_string());
    u.number = Some("n".to_string());
    let st = build_update(&u, &"id".to_string(), &"now".to_string()).unwrap();
    let cols: Vec<Column> = st.assignments.iter().map(|a| a.column).collect();
    assert_eq!(cols, vec![Column::Number, Column::Summary, Column::UpdatedAt]);
    assert_eq!(st.assignments[2].value, "now");
    assert_eq!(st.process_id, "id");
    assert_eq!(Column::ProcessType.name(), "type");
    assert!(matches!(
        build_update(&no_updates(), &"id".to_string(), &"now".to_string()),
        Err(StoreError::NothingToUpdate)
    ));
}

#[test]
fn statement_keeps_summary_when_absent() {
    let mut s = ProcessStore::new();
    let p = s.add_process_with(data("A"), "id".to_string(), "t".to_string()).unwrap();
    let mut u = no_updates();
    u.pending_actions = Some("[]".to_string());
    let st = build_update(&u, &p.id, &"t2".to_string()).unwrap();
    let q = apply_statement(&p, &st);
    assert_eq!(q.pending_actions, "[]");
    assert_eq!(q.summary, Some("first note".to_string()));
    assert_eq!(q.updated_at, "t2");
}

#[test]
fn duplicate_mark_identifier_is_refused() {
    let mut s = ProcessStore::new();
    let pid = "p".to_string();
    assert!(s.toggle_action_completion_with(&pid, &"a".to_string(), "m".to_string(), "t".to_string()).unwrap());
    let r = s.toggle_action_completion_with(&pid, &"b".to_string(), "m".to_string(), "t".to_string());
    assert!(matches!(r, Err(StoreError::DuplicateId)));
    assert_eq!(s.completed.len(), 1);
    assert!(!s.toggle_action_completion_with(&pid, &"a".to_string(), "m".to_string(), "t".to_string()).unwrap());
    assert_eq!(s.completed.len(), 0);
}

#[test]
fn listing_is_newest_created_first() {
    let mut s = ProcessStore::new();
    s.add_process_with(data("March"), "m".to_string(), "2024-03-01 00:00:00".to_string()).unwrap();
    s.add_process_with(data("Jan"), "j".to_string(), "2024-01-01 00:00:00".to_string()).unwrap();
    s.add_process_with(data("Feb"), "f".to_string(), "2024-02-01 00:00:00".to_string()).unwrap();
    let ids: Vec<String> = s.get_all_processes().into_iter().map(|p| p.id).collect();
    assert_eq!(ids, vec!["m".to_string(), "f".to_string(), "j".to_string()]);
}

#[test]
fn add_on_empty_store_succeeds() {
    let mut s = ProcessStore::new();
    assert!(s.add_process(data("A")).is_ok());
    assert!(s.toggle_action_completion(&"p".to_string(), &"a".to_string()).unwrap());
}
