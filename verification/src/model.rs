//! The records of the store and the payloads that requests carry.

use vstd::prelude::*;
use crate::clock::Timestamp;
use crate::clock::now;
use crate::laws::{
    law_create_keeps_ids_distinct, law_delete_is_final, law_delete_keeps_well_formed,
    law_update_keeps_well_formed,
};
use crate::state::{
    after_create, after_delete, after_update, created, first_index, has_id, is_first_at,
    lemma_first_index_is, lookup, page_of, page_offset, patched, well_formed, Patch, Records,
};

verus! {

/// One todo record.
#[allow(non_snake_case)]
#[derive(Debug)]
pub struct Todo {
    pub id: Option<String>,
    pub title: String,
    pub content: String,
    pub completed: Option<bool>,
    pub createdAt: Option<Timestamp>,
    pub updatedAt: Option<Timestamp>,
}

/// What a record is, as plain values.
pub struct TodoView {
    pub id: Option<Seq<char>>,
    pub title: Seq<char>,
    pub content: Seq<char>,
    pub completed: Option<bool>,
    pub created_at: Option<Timestamp>,
    pub updated_at: Option<Timestamp>,
}

/// The characters of an optional text.
pub open spec fn opt_text(o: Option<String>) -> Option<Seq<char>> {
    match o {
        Some(s) => Some(s@),
        None => None,
    }
}

impl View for Todo {
    type V = TodoView;

    open spec fn view(&self) -> TodoView {
        TodoView {
            id: opt_text(self.id),
            title: self.title@,
            content: self.content@,
            completed: self.completed,
            created_at: self.createdAt,
            updated_at: self.updatedAt,
        }
    }
}

impl Clone for Todo {
    fn clone(&self) -> (r: Self)
        ensures
            r == *self,
    {
        let id = match &self.id {
            Some(s) => Some(s.clone()),
            None => None,
        };
        Todo {
            id,
            title: self.title.clone(),
            content: self.content.clone(),
            completed: self.completed,
            createdAt: self.createdAt,
            updatedAt: self.updatedAt,
        }
    }
}

/// The body of a request that creates a record.
#[derive(Debug)]
pub struct CreateTodoSchema {
    pub title: String,
    pub content: String,
}

/// The body of a request that changes a record. A text that is absent leaves
/// the stored one alone; the completion flag is taken over as it is.
#[derive(Debug)]
pub struct UpdateTodoSchema {
    pub title: Option<String>,
    pub content: Option<String>,
    pub completed: Option<bool>,
}

/// The query of a request that lists records.
#[derive(Debug)]
pub struct QueryOptions {
    pub limit: Option<usize>,
    pub page: Option<usize>,
}

/// The record that a creation payload turns into at instant `at`, before the
/// store has given it an identifier.
pub open spec fn drafted(title: Seq<char>, content: Seq<char>, at: Timestamp) -> TodoView {
    TodoView {
        id: None,
        title,
        content,
        completed: None,
        created_at: Some(at),
        updated_at: Some(at),
    }
}

impl Todo {
    /// Drafts a record from a payload: no identifier yet, not completed,
    /// created and updated at `at`.
    pub fn draft(todo: CreateTodoSchema, at: Timestamp) -> (r: Todo)
        ensures
            r@ == drafted(todo.title@, todo.content@, at),
    {
        Todo {
            id: None,
            title: todo.title,
            content: todo.content,
            completed: None,
            createdAt: Some(at),
            updatedAt: Some(at),
        }
    }
}

impl From<CreateTodoSchema> for Todo {
    /// Drafts a record from a payload, stamped with the clock's reading.
    fn from(todo: CreateTodoSchema) -> (r: Todo)
        ensures
            r@.created_at is Some,
            r@ == drafted(todo.title@, todo.content@, r@.created_at->0),
    {
        Todo::draft(todo, now())
    }
}

impl vstd::std_specs::convert::FromSpecImpl<CreateTodoSchema> for Todo {
    open spec fn obeys_from_spec() -> bool {
        false
    }

    open spec fn from_spec(todo: CreateTodoSchema) -> Todo {
        arbitrary()
    }
}

impl View for UpdateTodoSchema {
    type V = Patch;

    open spec fn view(&self) -> Patch {
        Patch {
            title: opt_text(self.title),
            content: opt_text(self.content),
            completed: self.completed,
        }
    }
}

/// The records of a vector, as plain values and in its order.
pub open spec fn views(v: Seq<Todo>) -> Records {
    v.map_values(|t: Todo| t@)
}

/// Taking the views commutes with appending a record.
pub proof fn lemma_views_push(v: Seq<Todo>, t: Todo)
    ensures
        views(v.push(t)) == views(v).push(t@),
{
    assert(views(v.push(t)) =~= views(v).push(t@));
}

/// The store: the records in the order in which they were created.
pub struct AppState {
    pub todo_db: Vec<Todo>,
}

impl View for AppState {
    type V = Records;

    open spec fn view(&self) -> Records {
        views(self.todo_db@)
    }
}

/// Tells whether `todo` carries the identifier `id`.
fn carries(todo: &Todo, id: &String) -> (r: bool)
    ensures
        r == (todo@.id == Some(id@)),
{
    match &todo.id {
        Some(s) => *s == *id,
        None => false,
    }
}

impl AppState {
    /// The empty store.
    pub fn init() -> (r: AppState)
        ensures
            r@ == Records::empty(),
            well_formed(r@),
    {
        let r = AppState { todo_db: Vec::new() };
        assert(r@ =~= Records::empty());
        r
    }

    /// The number of records.
    pub fn len(&self) -> (n: usize)
        ensures
            n == self@.len(),
    {
        self.todo_db.len()
    }

    /// Scans from the oldest record on for the first that carries `id`.
    pub fn position(&self, id: &String) -> (r: Option<usize>)
        ensures
            match r {
                Some(i) => is_first_at(self@, id@, i as int),
                None => !has_id(self@, id@),
            },
    {
        let mut i: usize = 0;
        while i < self.todo_db.len()
            invariant
                i <= self.todo_db.len(),
                forall|j: int| 0 <= j < i ==> (#[trigger] self@[j]).id != Some(id@),
            decreases self.todo_db.len() - i,
        {
            if carries(&self.todo_db[i], id) {
                return Some(i);
            }
            i += 1;
        }
        None
    }

    /// One page of the store: `limit` records to a page, pages counted from
    /// one. The records come in the store's order, as copies. Page zero and
    /// every page behind the last record are empty.
    pub fn list(&self, limit: usize, page: usize) -> (r: Vec<Todo>)
        ensures
            views(r@) == page_of(self@, limit as nat, page as nat),
    {
        let n: usize = self.todo_db.len();
        let start: usize = if page == 0 {
            n
        } else {
            match (page - 1).checked_mul(limit) {
                Some(offset) => if offset < n { offset } else { n },
                None => n,
            }
        };
        let end: usize = if limit >= n - start { n } else { start + limit };
        let mut out: Vec<Todo> = Vec::new();
        let mut i: usize = start;
        while i < end
            invariant
                start <= i <= end <= n,
                n == self.todo_db.len(),
                views(out@) =~= self@.subrange(start as int, i as int),
            decreases end - i,
        {
            let ghost before = out@;
            let todo = self.todo_db[i].clone();
            out.push(todo);
            proof {
                lemma_views_push(before, todo);
                assert(self@[i as int] == todo@);
                assert(self@.subrange(start as int, i + 1) =~= self@.subrange(
                    start as int,
                    i as int,
                ).push(todo@));
            }
            i += 1;
        }
        proof {
            let offset = page_offset(limit as nat, page as nat);
            if page == 0 || offset >= n {
                assert(self@.subrange(start as int, end as int) =~= Records::empty());
            }
        }
        out
    }

    /// Stores the draft `todo` as a new record with the identifier `id`,
    /// created and updated at `at`, behind all others, and hands back a copy
    /// of what was stored.
    pub fn create(&mut self, todo: Todo, id: String, at: Timestamp) -> (r: Todo)
        ensures
            r@ == created(id@, todo@.title, todo@.content, at),
            final(self)@ == after_create(old(self)@, id@, todo@.title, todo@.content, at),
            well_formed(old(self)@) && id@.len() > 0 && !has_id(old(self)@, id@) ==> well_formed(
                final(self)@,
            ),
    {
        proof {
            if well_formed(self@) && id@.len() > 0 && !has_id(self@, id@) {
                law_create_keeps_ids_distinct(self@, id@, todo@.title, todo@.content, at);
            }
        }
        let mut todo = todo;
        todo.id = Some(id);
        todo.completed = None;
        todo.createdAt = Some(at);
        todo.updatedAt = Some(at);
        self.todo_db.push(todo.clone());
        proof {
            lemma_views_push(old(self).todo_db@, todo);
        }
        todo
    }

    /// A copy of the first record that carries `id`, if there is one.
    pub fn get_by_id(&self, id: &String) -> (r: Option<Todo>)
        ensures
            match r {
                Some(t) => lookup(self@, id@) == Some(t@),
                None => lookup(self@, id@) is None,
            },
    {
        match self.position(id) {
            Some(i) => {
                proof {
                    lemma_first_index_is(self@, id@, i as int);
                }
                Some(self.todo_db[i].clone())
            },
            None => None,
        }
    }

    /// Applies `payload` at instant `at` to the first record that carries
    /// `id` and hands back a copy of the record as it then stands. Without
    /// such a record the store is left as it was.
    pub fn update_by_id(&mut self, id: &String, at: Timestamp, payload: UpdateTodoSchema) -> (r:
        Option<Todo>)
        ensures
            final(self)@ == after_update(old(self)@, id@, payload@, at),
            match r {
                Some(t) => has_id(old(self)@, id@) && t@ == patched(
                    old(self)@[first_index(old(self)@, id@)],
                    payload@,
                    at,
                ),
                None => !has_id(old(self)@, id@),
            },
            final(self)@.len() == old(self)@.len(),
            well_formed(old(self)@) ==> well_formed(final(self)@),
    {
        proof {
            if well_formed(self@) {
                law_update_keeps_well_formed(self@, id@, payload@, at);
            }
        }
        match self.position(id) {
            Some(i) => {
                proof {
                    lemma_first_index_is(self@, id@, i as int);
                }
                let current = &self.todo_db[i];
                let todo = Todo {
                    id: match &current.id {
                        Some(s) => Some(s.clone()),
                        None => None,
                    },
                    title: match payload.title {
                        Some(title) => title,
                        None => current.title.clone(),
                    },
                    content: match payload.content {
                        Some(content) => content,
                        None => current.content.clone(),
                    },
                    completed: payload.completed,
                    createdAt: current.createdAt,
                    updatedAt: Some(at),
                };
                self.todo_db.set(i, todo.clone());
                assert(self@ =~= old(self)@.update(i as int, todo@));
                Some(todo)
            },
            None => None,
        }
    }

    /// Removes the first record that carries `id` and tells whether there
    /// was one. The records that stay keep their order.
    pub fn delete_by_id(&mut self, id: &String) -> (r: bool)
        ensures
            r == has_id(old(self)@, id@),
            final(self)@ == after_delete(old(self)@, id@),
            well_formed(old(self)@) ==> well_formed(final(self)@),
            well_formed(old(self)@) ==> !has_id(final(self)@, id@),
    {
        proof {
            if well_formed(self@) {
                law_delete_keeps_well_formed(self@, id@);
                if has_id(self@, id@) {
                    law_delete_is_final(self@, id@);
                }
            }
        }
        match self.position(id) {
            Some(i) => {
                proof {
                    lemma_first_index_is(self@, id@, i as int);
                }
                self.todo_db.remove(i);
                assert(self@ =~= old(self)@.remove(i as int));
                true
            },
            None => false,
        }
    }
}

} // verus!
