use workers_connect::error::ErrorCode;
use workers_connect::todo::{
    create_reply, delete_reply, found_reply, list_reply, not_found, rows_were_deleted, InMemoryTodoStore, StoreError,
    TodoRecord, TodoServer, TodoStore,
};

fn server() -> TodoServer<InMemoryTodoStore> {
    TodoServer::new(InMemoryTodoStore::new())
}

fn create(srv: &mut TodoServer<InMemoryTodoStore>, text: &str) -> TodoRecord {
    srv.create_todo(text.into()).expect("create_todo")
}

#[test]
fn create_assigns_monotonic_ids_and_defaults_done_false() {
    let mut srv = server();
    let a = create(&mut srv, "buy milk");
    let b = create(&mut srv, "walk dog");
    assert_eq!(a.id, 1);
    assert_eq!(b.id, 2);
    assert_eq!(a.text, "buy milk");
    assert!(!a.done);
    assert!(!b.done);
}

#[test]
fn create_rejects_empty_text() {
    let mut srv = server();
    let err = srv
        .create_todo(String::new())
        .expect_err("empty text must be rejected");
    assert_eq!(err.code, ErrorCode::InvalidArgument);
}

#[test]
fn get_returns_existing_todo() {
    let mut srv = server();
    let created = create(&mut srv, "read book");
    let fetched = srv.get_todo(created.id).unwrap();
    assert_eq!(fetched.id, created.id);
    assert_eq!(fetched.text, "read book");
}

#[test]
fn get_missing_returns_not_found() {
    let srv = server();
    let err = srv.get_todo(999).expect_err("must not find todo 999");
    assert_eq!(err.code, ErrorCode::NotFound);
}

#[test]
fn list_returns_todos_in_id_order() {
    let mut srv = server();
    create(&mut srv, "one");
    create(&mut srv, "two");
    create(&mut srv, "three");
    let todos = srv.list_todos().unwrap();
    let ids: Vec<i64> = todos.iter().map(|t| t.id).collect();
    let texts: Vec<&str> = todos.iter().map(|t| t.text.as_str()).collect();
    assert_eq!(ids, vec![1, 2, 3]);
    assert_eq!(texts, vec!["one", "two", "three"]);
}

#[test]
fn list_on_empty_store_returns_empty() {
    let srv = server();
    assert!(srv.list_todos().unwrap().is_empty());
}

#[test]
fn update_can_change_text_only() {
    let mut srv = server();
    let created = create(&mut srv, "old");
    let updated = srv
        .update_todo(created.id, Some("new".into()), None)
        .unwrap();
    assert_eq!(updated.text, "new");
    assert!(!updated.done);
}

#[test]
fn update_can_toggle_done_only() {
    let mut srv = server();
    let created = create(&mut srv, "task");
    let updated = srv.update_todo(created.id, None, Some(true)).unwrap();
    assert_eq!(updated.text, "task");
    assert!(updated.done);
}

#[test]
fn update_missing_returns_not_found() {
    let mut srv = server();
    let err = srv
        .update_todo(42, Some("x".into()), None)
        .expect_err("must not update missing todo");
    assert_eq!(err.code, ErrorCode::NotFound);
}

#[test]
fn delete_removes_todo() {
    let mut srv = server();
    let created = create(&mut srv, "doomed");
    srv.delete_todo(created.id).expect("delete");
    let err = srv
        .get_todo(created.id)
        .expect_err("get must fail after delete");
    assert_eq!(err.code, ErrorCode::NotFound);
}

#[test]
fn delete_missing_returns_not_found() {
    let mut srv = server();
    let err = srv.delete_todo(7).expect_err("must not delete missing todo");
    assert_eq!(err.code, ErrorCode::NotFound);
}

#[test]
fn not_found_message_names_the_id() {
    assert_eq!(not_found(999).message, "todo 999 not found");
    assert_eq!(not_found(-5).message, "todo -5 not found");
    assert_eq!(
        not_found(i64::MIN).message,
        "todo -9223372036854775808 not found"
    );
    assert_eq!(not_found(0).code, ErrorCode::NotFound);
}

#[test]
fn empty_text_error_message() {
    let mut srv = server();
    let err = srv.create_todo(String::new()).unwrap_err();
    assert_eq!(err.message, "text must not be empty");
    assert!(srv.list_todos().unwrap().is_empty());
}

#[test]
fn deleted_ids_are_not_reused() {
    let mut srv = server();
    let a = create(&mut srv, "a");
    srv.delete_todo(a.id).unwrap();
    let b = create(&mut srv, "b");
    assert_eq!(b.id, 2);
    let ids: Vec<i64> = srv.list_todos().unwrap().iter().map(|t| t.id).collect();
    assert_eq!(ids, vec![2]);
}

#[test]
fn update_with_no_fields_returns_stored_todo() {
    let mut srv = server();
    let created = create(&mut srv, "keep");
    let same = srv.update_todo(created.id, None, None).unwrap();
    assert_eq!((same.id, same.text.as_str(), same.done), (1, "keep", false));
    let fetched = srv.get_todo(1).unwrap();
    assert_eq!((fetched.text.as_str(), fetched.done), ("keep", false));
}

#[test]
fn update_then_get_reads_back_both_fields() {
    let mut srv = server();
    create(&mut srv, "first");
    let other = create(&mut srv, "second");
    srv.update_todo(1, Some("changed".into()), Some(true)).unwrap();
    let fetched = srv.get_todo(1).unwrap();
    assert_eq!((fetched.text.as_str(), fetched.done), ("changed", true));
    let untouched = srv.get_todo(other.id).unwrap();
    assert_eq!((untouched.text.as_str(), untouched.done), ("second", false));
}

#[test]
fn store_failures_become_internal_errors() {
    let err = create_reply(Err(StoreError::new("disk on fire".into()))).unwrap_err();
    assert_eq!((err.code, err.message.as_str()), (ErrorCode::Internal, "disk on fire"));
    let err = found_reply(3, Err(StoreError::new("boom".into()))).unwrap_err();
    assert_eq!(err.code, ErrorCode::Internal);
    let err = list_reply(Err(StoreError::new("gone".into()))).unwrap_err();
    assert_eq!(err.message, "gone");
    let err = delete_reply(3, Err(StoreError::new("locked".into()))).unwrap_err();
    assert_eq!(err.code, ErrorCode::Internal);
}

#[test]
fn replies_map_store_answers() {
    let record = TodoRecord { id: 3, text: "x".into(), done: true };
    let got = found_reply(3, Ok(Some(record.duplicate()))).unwrap();
    assert_eq!((got.id, got.text.as_str(), got.done), (3, "x", true));
    let err = found_reply(3, Ok(None)).unwrap_err();
    assert_eq!((err.code, err.message.as_str()), (ErrorCode::NotFound, "todo 3 not found"));
    assert!(delete_reply(3, Ok(true)).is_ok());
    let err = delete_reply(4, Ok(false)).unwrap_err();
    assert_eq!(err.message, "todo 4 not found");
    assert!(list_reply(Ok(Vec::new())).unwrap().is_empty());
}

#[test]
fn store_error_keeps_its_message() {
    let e = StoreError::new("d1 get: timeout".into());
    assert_eq!(e.message(), "d1 get: timeout");
    let rpc = e.into_rpc_error();
    assert_eq!((rpc.code, rpc.message.as_str()), (ErrorCode::Internal, "d1 get: timeout"));
}

#[test]
fn rows_map_integer_done_flags() {
    assert!(!TodoRecord::from_row(1, "a".into(), 0).done);
    assert!(TodoRecord::from_row(2, "b".into(), 1).done);
    assert!(TodoRecord::from_row(3, "c".into(), -7).done);
}

#[test]
fn in_memory_store_direct_operations() {
    let mut store = InMemoryTodoStore::new();
    assert!(store.can_create());
    assert!(store.has_room_for_create());
    let rec = store.create("x".into()).unwrap();
    assert_eq!(rec.id, 1);
    assert_eq!(store.get(1).unwrap().map(|r| r.text), Some("x".to_string()));
    assert_eq!(store.delete(1).unwrap(), true);
    assert_eq!(store.delete(1).unwrap(), false);
    assert!(store.get(1).unwrap().is_none());
    assert!(store.update(1, None, Some(true)).unwrap().is_none());
}

#[test]
fn deleted_rows_come_from_the_change_count() {
    assert!(rows_were_deleted(Some(1)));
    assert!(!rows_were_deleted(Some(0)));
    assert!(!rows_were_deleted(None));
}
