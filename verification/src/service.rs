use vstd::prelude::*;
use vstd::string::StringExecFns;
use crate::body::{parse_body, parse_content_body};
use crate::json::{json_todo, json_todo_list};
use crate::json::{todo_json, todo_list_json};
use crate::num::{dec_str, i32_to_string, int_text_format, parse_i32, text_val};
use crate::store::{has_id, spec_delete, spec_get, spec_insert, spec_update, TodoStore};
use crate::todo::todos_view;

verus! {

/// One HTTP reply: a status code and a body text.
pub struct Response {
    pub status: u16,
    pub body: String,
}

/// The reply body when an id is not in the store, naming the id.
pub open spec fn not_found_msg(id: int) -> Seq<char> {
    "Not Todo id: "@ + dec_str(id) + " found!"@
}

/// The reply body when an id is not in the store, naming the id.
pub fn not_found_message(id: i32) -> (r: String)
    ensures
        r@ == not_found_msg(id as int),
{
    let mut body = String::from_str("Not Todo id: ");
    let num = i32_to_string(id);
    body.append(num.as_str());
    body.append(" found!");
    body
}

fn not_found_response(id: i32) -> (r: Response)
    ensures
        r.status == 404,
        r.body@ == not_found_msg(id as int),
{
    Response { status: 404, body: not_found_message(id) }
}

/// GET /todo_list: 200 with the JSON array of every row, in storage order.
pub fn handle_todo_list(store: &TodoStore) -> (r: Response)
    ensures
        r.status == 200,
        r.body@ == json_todo_list(store@.todos),
{
    let todos = store.list_all();
    let body = todo_list_json(&todos);
    proof {
        assert(todos_view(todos@) =~= store@.todos);
    }
    Response { status: 200, body }
}

/// GET /todo/{id}: 200 with the row's JSON if the id is present, else 404
/// with a message naming the id.
pub fn handle_get_todo(store: &TodoStore, id: i32) -> (r: Response)
    ensures
        has_id(store@.todos, id as int) ==> r.status == 200 && r.body@ == json_todo(
            spec_get(store@.todos, id as int).unwrap(),
        ),
        !has_id(store@.todos, id as int) ==> r.status == 404 && r.body@ == not_found_msg(
            id as int,
        ),
{
    match store.get_by_id(id) {
        Some(t) => Response { status: 200, body: todo_json(&t) },
        None => not_found_response(id),
    }
}

/// POST /add_todo: 400 if the body is not a JSON object with a string
/// member "content"; otherwise the row is inserted and the reply is 200
/// with a plain confirmation.
pub fn handle_add_todo(store: &mut TodoStore, body: &str) -> (r: Response)
    requires
        old(store).wf(),
        old(store)@.next_id < i32::MAX,
    ensures
        final(store).wf(),
        match parse_body(body@) {
            Some(content) => final(store)@ == spec_insert(old(store)@, content) && r.status == 200
                && r.body@ == "Add New Todo Successful"@,
            None => final(store)@ == old(store)@ && r.status == 400 && r.body@
                == "Invalid todo request body"@,
        },
{
    match parse_content_body(body) {
        Some(content) => {
            store.insert(content.as_str());
            Response { status: 200, body: String::from_str("Add New Todo Successful") }
        },
        None => Response { status: 400, body: String::from_str("Invalid todo request body") },
    }
}

/// PUT /update_todo/{id}: 400 if the body is malformed; 404, naming the id,
/// if no row has it, leaving the store as it was; otherwise the row's
/// content is overwritten and the reply is 200 with a plain confirmation.
pub fn handle_update_todo(store: &mut TodoStore, id: i32, body: &str) -> (r: Response)
    requires
        old(store).wf(),
    ensures
        final(store).wf(),
        match parse_body(body@) {
            None => final(store)@ == old(store)@ && r.status == 400 && r.body@
                == "Invalid todo request body"@,
            Some(content) => if has_id(old(store)@.todos, id as int) {
                final(store)@ == spec_update(old(store)@, id as int, content) && r.status == 200
                    && r.body@ == "Todo Updated"@
            } else {
                final(store)@ == old(store)@ && r.status == 404 && r.body@ == not_found_msg(
                    id as int,
                )
            },
        },
{
    match parse_content_body(body) {
        None => Response { status: 400, body: String::from_str("Invalid todo request body") },
        Some(content) => {
            let found = store.update_content(id, content.as_str());
            if found {
                Response { status: 200, body: String::from_str("Todo Updated") }
            } else {
                proof {
                    assert(final(store)@.todos =~= old(store)@.todos);
                }
                not_found_response(id)
            }
        },
    }
}

/// DELETE /delete_todo/{id}: 404, naming the id, if no row has it, leaving
/// the store as it was; otherwise the row is removed and the reply is 200
/// with a plain confirmation.
pub fn handle_delete_todo(store: &mut TodoStore, id: i32) -> (r: Response)
    requires
        old(store).wf(),
    ensures
        final(store).wf(),
        final(store)@ == spec_delete(old(store)@, id as int),
        has_id(old(store)@.todos, id as int) ==> r.status == 200 && r.body@ == "Todo Deleted"@,
        !has_id(old(store)@.todos, id as int) ==> r.status == 404 && r.body@ == not_found_msg(
            id as int,
        ),
{
    let found = store.delete_by_id(id);
    if found {
        Response { status: 200, body: String::from_str("Todo Deleted") }
    } else {
        not_found_response(id)
    }
}

/// Whether a path segment reads as an id the routes accept.
pub open spec fn valid_id_text(s: Seq<char>) -> bool {
    int_text_format(s) && i32::MIN <= text_val(s) <= i32::MAX
}

/// GET /todo/{id} with the raw path segment: 400 if it is not an integer,
/// else as `handle_get_todo` on its value.
pub fn route_get_todo(store: &TodoStore, id_text: &str) -> (r: Response)
    ensures
        !valid_id_text(id_text@) ==> r.status == 400 && r.body@ == "Invalid todo id"@,
        valid_id_text(id_text@) ==> {
            let id = text_val(id_text@);
            &&& has_id(store@.todos, id) ==> r.status == 200 && r.body@ == json_todo(
                spec_get(store@.todos, id).unwrap(),
            )
            &&& !has_id(store@.todos, id) ==> r.status == 404 && r.body@ == not_found_msg(id)
        },
{
    match parse_i32(id_text) {
        Some(id) => handle_get_todo(store, id),
        None => Response { status: 400, body: String::from_str("Invalid todo id") },
    }
}

/// PUT /update_todo/{id} with the raw path segment: 400 if it is not an
/// integer, else as `handle_update_todo` on its value.
pub fn route_update_todo(store: &mut TodoStore, id_text: &str, body: &str) -> (r: Response)
    requires
        old(store).wf(),
    ensures
        final(store).wf(),
        !valid_id_text(id_text@) ==> final(store)@ == old(store)@ && r.status == 400 && r.body@
            == "Invalid todo id"@,
        valid_id_text(id_text@) ==> {
            let id = text_val(id_text@);
            match parse_body(body@) {
                None => final(store)@ == old(store)@ && r.status == 400 && r.body@
                    == "Invalid todo request body"@,
                Some(content) => if has_id(old(store)@.todos, id) {
                    final(store)@ == spec_update(old(store)@, id, content) && r.status == 200
                        && r.body@ == "Todo Updated"@
                } else {
                    final(store)@ == old(store)@ && r.status == 404 && r.body@ == not_found_msg(id)
                },
            }
        },
{
    match parse_i32(id_text) {
        Some(id) => handle_update_todo(store, id, body),
        None => Response { status: 400, body: String::from_str("Invalid todo id") },
    }
}

/// DELETE /delete_todo/{id} with the raw path segment: 400 if it is not an
/// integer, else as `handle_delete_todo` on its value.
pub fn route_delete_todo(store: &mut TodoStore, id_text: &str) -> (r: Response)
    requires
        old(store).wf(),
    ensures
        final(store).wf(),
        !valid_id_text(id_text@) ==> final(store)@ == old(store)@ && r.status == 400 && r.body@
            == "Invalid todo id"@,
        valid_id_text(id_text@) ==> {
            let id = text_val(id_text@);
            &&& final(store)@ == spec_delete(old(store)@, id)
            &&& has_id(old(store)@.todos, id) ==> r.status == 200 && r.body@ == "Todo Deleted"@
            &&& !has_id(old(store)@.todos, id) ==> r.status == 404 && r.body@ == not_found_msg(id)
        },
{
    match parse_i32(id_text) {
        Some(id) => handle_delete_todo(store, id),
        None => Response { status: 400, body: String::from_str("Invalid todo id") },
    }
}

} // verus!
