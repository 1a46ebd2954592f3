//! What each request does to the store and what it is answered with.
//!
//! A request that can miss its record is answered with `Ok` where the record
//! was there (status 200 on the wire) and with `Err` where it was not (404).

use vstd::prelude::*;
use crate::clock::now;
use crate::ident::{fresh_id, is_random_uuid_text, lemma_uuid_text_nonempty};
use crate::model::{views, AppState, CreateTodoSchema, QueryOptions, Todo, UpdateTodoSchema};
use crate::response::{GenericResponse, SingleTodoResponse, TodoData, TodoListResponse};
use crate::state::{
    after_delete, after_update, created, first_index, has_id, lookup, page_of, patched,
    well_formed,
};

verus! {

/// The page size of a listing that names none.
pub const DEFAULT_LIMIT: usize = 10;

/// The page of a listing that names none.
pub const DEFAULT_PAGE: usize = 1;

impl QueryOptions {
    /// The page size that the query asks for.
    pub open spec fn limit_or_default(&self) -> nat {
        match self.limit {
            Some(limit) => limit as nat,
            None => DEFAULT_LIMIT as nat,
        }
    }

    /// The page that the query asks for.
    pub open spec fn page_or_default(&self) -> nat {
        match self.page {
            Some(page) => page as nat,
            None => DEFAULT_PAGE as nat,
        }
    }
}

/// The answer to a request that succeeded says so.
pub open spec fn says_success(status: Seq<char>) -> bool {
    status == "success"@
}

/// The one answer to a request for a record that the store does not hold.
pub open spec fn says_not_found(r: GenericResponse) -> bool {
    r.status@ == "error"@ && r.message@ == "Todo not found."@
}

fn not_found() -> (r: GenericResponse)
    ensures
        says_not_found(r),
{
    GenericResponse { status: "error".to_string(), message: "Todo not found.".to_string() }
}

fn single(todo: Todo) -> (r: SingleTodoResponse)
    ensures
        says_success(r.status@),
        r.data.todo == todo,
{
    SingleTodoResponse { status: "success".to_string(), data: TodoData { todo } }
}

/// Answers that the service is up.
pub fn health_checker_handler() -> (r: GenericResponse)
    ensures
        says_success(r.status@),
        r.message@ == "Actix Server Boilerplate is running."@,
{
    GenericResponse {
        status: "success".to_string(),
        message: "Actix Server Boilerplate is running.".to_string(),
    }
}

/// Lists one page of the store, and counts the whole store beside it. Every
/// query is answered: a page that holds no record is listed as empty.
pub fn get_todos(app_state: &AppState, query: &QueryOptions) -> (r: TodoListResponse)
    ensures
        says_success(r.status@),
        r.results == app_state@.len(),
        views(r.todos@) == page_of(
            app_state@,
            query.limit_or_default(),
            query.page_or_default(),
        ),
{
    let limit: usize = match query.limit {
        Some(limit) => limit,
        None => DEFAULT_LIMIT,
    };
    let page: usize = match query.page {
        Some(page) => page,
        None => DEFAULT_PAGE,
    };
    let results: usize = app_state.len();
    let todos = app_state.list(limit, page);
    TodoListResponse { status: "success".to_string(), results, todos }
}

/// Creates a record from `payload` under a newly drawn identifier, stamped
/// with the clock's reading, and stores it behind all others. The answer
/// holds a copy of the stored record.
pub fn create_todo(app_state: &mut AppState, payload: CreateTodoSchema) -> (r: SingleTodoResponse)
    ensures
        says_success(r.status@),
        r.data.todo@.id is Some,
        is_random_uuid_text(r.data.todo@.id->0),
        r.data.todo@.created_at is Some,
        r.data.todo@ == created(
            r.data.todo@.id->0,
            payload.title@,
            payload.content@,
            r.data.todo@.created_at->0,
        ),
        final(app_state)@ == old(app_state)@.push(r.data.todo@),
        well_formed(old(app_state)@) && !has_id(old(app_state)@, r.data.todo@.id->0)
            ==> well_formed(final(app_state)@),
{
    let todo = Todo::from(payload);
    let id = fresh_id();
    let at = now();
    proof {
        lemma_uuid_text_nonempty(id@);
    }
    let stored = app_state.create(todo, id, at);
    single(stored)
}

/// Looks the record `id` up.
pub fn get_todo_by_id(app_state: &AppState, id: &String) -> (r: Result<
    SingleTodoResponse,
    GenericResponse,
>)
    ensures
        match r {
            Ok(found) => says_success(found.status@) && lookup(app_state@, id@) == Some(
                found.data.todo@,
            ),
            Err(e) => says_not_found(e) && lookup(app_state@, id@) is None,
        },
{
    match app_state.get_by_id(id) {
        Some(todo) => Ok(single(todo)),
        None => Err(not_found()),
    }
}

/// Applies `payload` to the record `id`, stamped with the clock's reading.
/// The answer holds a copy of the record as it then stands. The clock is
/// read only once the record is found.
pub fn update_todo_by_id(app_state: &mut AppState, id: &String, payload: UpdateTodoSchema) -> (r:
    Result<SingleTodoResponse, GenericResponse>)
    ensures
        match r {
            Ok(changed) => {
                &&& says_success(changed.status@)
                &&& has_id(old(app_state)@, id@)
                &&& changed.data.todo@.updated_at is Some
                &&& changed.data.todo@ == patched(
                    old(app_state)@[first_index(old(app_state)@, id@)],
                    payload@,
                    changed.data.todo@.updated_at->0,
                )
                &&& final(app_state)@ == after_update(
                    old(app_state)@,
                    id@,
                    payload@,
                    changed.data.todo@.updated_at->0,
                )
            },
            Err(e) => {
                &&& says_not_found(e)
                &&& !has_id(old(app_state)@, id@)
                &&& final(app_state)@ == old(app_state)@
            },
        },
        final(app_state)@.len() == old(app_state)@.len(),
        well_formed(old(app_state)@) ==> well_formed(final(app_state)@),
{
    if app_state.position(id).is_none() {
        return Err(not_found());
    }
    let at = now();
    match app_state.update_by_id(id, at, payload) {
        Some(todo) => Ok(single(todo)),
        None => Err(not_found()),
    }
}

/// Removes the record `id`.
pub fn delete_todo_by_id(app_state: &mut AppState, id: &String) -> (r: Result<
    GenericResponse,
    GenericResponse,
>)
    ensures
        final(app_state)@ == after_delete(old(app_state)@, id@),
        match r {
            Ok(done) => {
                &&& says_success(done.status@)
                &&& done.message@ == "Todo deleted successfully."@
                &&& has_id(old(app_state)@, id@)
            },
            Err(e) => says_not_found(e) && !has_id(old(app_state)@, id@),
        },
        well_formed(old(app_state)@) ==> well_formed(final(app_state)@),
        well_formed(old(app_state)@) ==> !has_id(final(app_state)@, id@),
{
    if app_state.delete_by_id(id) {
        Ok(
            GenericResponse {
                status: "success".to_string(),
                message: "Todo deleted successfully.".to_string(),
            },
        )
    } else {
        Err(not_found())
    }
}

} // verus!
