use vstd::prelude::*;
use vstd::string::StringExecFns;

use crate::models::{Todo, views_of};
use crate::store::{TodoError, TodoStore, contains_id};

verus! {

/// The body of an HTTP reply, before serialization.
pub enum ResponseBody {
    /// A single record, for a successful create, get or update.
    Record(Todo),
    /// The whole collection, for a successful list.
    Records(Vec<Todo>),
    /// An error object carrying a message.
    ErrorMessage(String),
    /// No body, for a successful delete or a failed one.
    Empty,
}

/// A handler's outcome: an HTTP status code and a body.
pub struct Reply {
    pub status: u16,
    pub body: ResponseBody,
}

/// The message carried by the error body of a failed lookup.
pub open spec fn not_found_message() -> Seq<char> {
    "Todo not found"@
}

/// The error reply of a failed get or update: status 404 and the
/// not-found message.
fn not_found_reply() -> (r: Reply)
    ensures
        r.status == 404,
        (match r.body {
            ResponseBody::ErrorMessage(m) => m@ == not_found_message(),
            _ => false,
        }),
{
    Reply { status: 404, body: ResponseBody::ErrorMessage(String::from_str("Todo not found")) }
}

/// GET /todos: status 200 and a snapshot of all records, in insertion
/// order. Never fails.
pub fn list_todos(store: &TodoStore) -> (r: Reply)
    ensures
        r.status == 200,
        (match r.body {
            ResponseBody::Records(v) => views_of(v@) == store@,
            _ => false,
        }),
{
    Reply { status: 200, body: ResponseBody::Records(store.list()) }
}

/// POST /todos: appends a record with a fresh identifier and the given
/// title and flag; status 201 and the created record. Never fails.
pub fn create_todo(store: &mut TodoStore, title: String, completed: bool) -> (r: Reply)
    requires
        old(store).wf(),
    ensures
        final(store).wf(),
        r.status == 201,
        (match r.body {
            ResponseBody::Record(t) => {
                &&& t@.title == title@
                &&& t@.completed == completed
                &&& !contains_id(old(store)@, t@.id)
                &&& final(store)@ == old(store)@.push(t@)
            },
            _ => false,
        }),
{
    let t = store.create(title, completed);
    Reply { status: 201, body: ResponseBody::Record(t) }
}

/// GET /todos/{id}: status 200 and the record carrying `id`, or status
/// 404 and the not-found error body when no record carries it.
pub fn get_todo(store: &TodoStore, id: u128) -> (r: Reply)
    requires
        store.wf(),
    ensures
        contains_id(store@, id) ==> r.status == 200 && (match r.body {
            ResponseBody::Record(t) => t@.id == id && store@.contains(t@),
            _ => false,
        }),
        !contains_id(store@, id) ==> r.status == 404 && (match r.body {
            ResponseBody::ErrorMessage(m) => m@ == not_found_message(),
            _ => false,
        }),
{
    match store.get(id) {
        Ok(t) => Reply { status: 200, body: ResponseBody::Record(t) },
        Err(TodoError::NotFound) => not_found_reply(),
    }
}

/// PUT /todos/{id}: overwrites the title and flag of the record carrying
/// `id` and returns status 200 and the updated record, or status 404 and
/// the not-found error body when no record carries it, leaving the store
/// unchanged.
pub fn update_todo(store: &mut TodoStore, id: u128, title: String, completed: bool) -> (r: Reply)
    requires
        old(store).wf(),
    ensures
        final(store).wf(),
        contains_id(old(store)@, id) ==> r.status == 200 && (match r.body {
            ResponseBody::Record(t) => {
                &&& t@.id == id
                &&& t@.title == title@
                &&& t@.completed == completed
                &&& final(store)@.len() == old(store)@.len()
                &&& forall|i: int|
                    0 <= i < old(store)@.len() ==> #[trigger] final(store)@[i] == (
                    if old(store)@[i].id == id {
                        t@
                    } else {
                        old(store)@[i]
                    })
            },
            _ => false,
        }),
        !contains_id(old(store)@, id) ==> r.status == 404 && final(store)@ == old(store)@ && (
        match r.body {
            ResponseBody::ErrorMessage(m) => m@ == not_found_message(),
            _ => false,
        }),
{
    match store.update(id, title, completed) {
        Ok(t) => Reply { status: 200, body: ResponseBody::Record(t) },
        Err(TodoError::NotFound) => not_found_reply(),
    }
}

/// DELETE /todos/{id}: removes the record carrying `id` and returns
/// status 204 with no body, so that no record carries `id` afterwards;
/// status 404 with no body when no record carries it, leaving the store
/// unchanged.
pub fn delete_todo(store: &mut TodoStore, id: u128) -> (r: Reply)
    requires
        old(store).wf(),
    ensures
        final(store).wf(),
        (match r.body {
            ResponseBody::Empty => true,
            _ => false,
        }),
        contains_id(old(store)@, id) ==> r.status == 204 && !contains_id(final(store)@, id) && (
        exists|i: int|
            0 <= i < old(store)@.len() && #[trigger] old(store)@[i].id == id
                && final(store)@ == old(store)@.remove(i)),
        !contains_id(old(store)@, id) ==> r.status == 404 && final(store)@ == old(store)@,
{
    match store.delete(id) {
        Ok(()) => Reply { status: 204, body: ResponseBody::Empty },
        Err(TodoError::NotFound) => Reply { status: 404, body: ResponseBody::Empty },
    }
}

} // verus!
