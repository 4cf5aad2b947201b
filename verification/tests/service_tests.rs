use todo_service::service::{
    handle_add_todo, handle_delete_todo, handle_get_todo, handle_todo_list, handle_update_todo,
    route_delete_todo, route_get_todo, route_update_todo,
};
use todo_service::store::TodoStore;

#[test]
fn end_to_end_scenario() {
    let mut store = TodoStore::new();

    let r = handle_add_todo(&mut store, "{\"content\":\"buy milk\"}");
    assert_eq!(r.status, 200);
    assert_eq!(r.body, "Add New Todo Successful");

    let r = handle_todo_list(&store);
    assert_eq!(r.status, 200);
    assert_eq!(r.body, "[{\"id\":1,\"content\":\"buy milk\"}]");

    let r = route_update_todo(&mut store, "1", "{\"content\":\"buy oat milk\"}");
    assert_eq!(r.status, 200);
    assert_eq!(r.body, "Todo Updated");

    let r = route_get_todo(&store, "1");
    assert_eq!(r.status, 200);
    assert_eq!(r.body, "{\"id\":1,\"content\":\"buy oat milk\"}");

    let r = route_delete_todo(&mut store, "1");
    assert_eq!(r.status, 200);
    assert_eq!(r.body, "Todo Deleted");

    let r = route_get_todo(&store, "1");
    assert_eq!(r.status, 404);
}

#[test]
fn get_missing_id_on_empty_store() {
    let store = TodoStore::new();
    let r = route_get_todo(&store, "999");
    assert_eq!(r.status, 404);
    assert!(r.body.contains("999"));
    assert_eq!(r.body, "Not Todo id: 999 found!");
}

#[test]
fn get_missing_negative_id_names_it() {
    let store = TodoStore::new();
    let r = handle_get_todo(&store, -7);
    assert_eq!(r.status, 404);
    assert_eq!(r.body, "Not Todo id: -7 found!");
}

#[test]
fn routes_reject_non_integer_ids() {
    let mut store = TodoStore::new();
    assert_eq!(route_get_todo(&store, "abc").status, 400);
    assert_eq!(route_get_todo(&store, "1.5").status, 400);
    assert_eq!(route_get_todo(&store, "99999999999").status, 400);
    assert_eq!(route_update_todo(&mut store, "abc", "{\"content\":\"x\"}").status, 400);
    assert_eq!(route_delete_todo(&mut store, "").status, 400);
}

#[test]
fn add_rejects_malformed_body_and_keeps_store() {
    let mut store = TodoStore::new();
    let r = handle_add_todo(&mut store, "not json");
    assert_eq!(r.status, 400);
    let r = handle_add_todo(&mut store, "{\"wrong\":\"x\"}");
    assert_eq!(r.status, 400);
    assert_eq!(handle_todo_list(&store).body, "[]");
}

#[test]
fn update_missing_id_reports_not_found() {
    let mut store = TodoStore::new();
    handle_add_todo(&mut store, "{\"content\":\"a\"}");
    let r = handle_update_todo(&mut store, 5, "{\"content\":\"b\"}");
    assert_eq!(r.status, 404);
    assert_eq!(r.body, "Not Todo id: 5 found!");
    assert_eq!(handle_todo_list(&store).body, "[{\"id\":1,\"content\":\"a\"}]");
}

#[test]
fn update_bad_body_beats_missing_id() {
    let mut store = TodoStore::new();
    let r = handle_update_todo(&mut store, 5, "nope");
    assert_eq!(r.status, 400);
}

#[test]
fn delete_missing_id_reports_not_found() {
    let mut store = TodoStore::new();
    let r = handle_delete_todo(&mut store, 3);
    assert_eq!(r.status, 404);
    assert_eq!(r.body, "Not Todo id: 3 found!");
}

#[test]
fn list_renders_all_rows_in_order() {
    let mut store = TodoStore::new();
    handle_add_todo(&mut store, "{\"content\":\"a\"}");
    handle_add_todo(&mut store, "{\"content\":\"b\"}");
    let r = handle_todo_list(&store);
    assert_eq!(
        r.body,
        "[{\"id\":1,\"content\":\"a\"},{\"id\":2,\"content\":\"b\"}]"
    );
}
