//! The bodies of the answers that the API gives.

use vstd::prelude::*;
use crate::model::Todo;

verus! {

/// An answer that carries only an outcome and a sentence for the reader.
#[derive(Debug)]
pub struct GenericResponse {
    pub status: String,
    pub message: String,
}

/// The record inside an answer about one record.
#[derive(Debug)]
pub struct TodoData {
    pub todo: Todo,
}

/// An answer about one record.
#[derive(Debug)]
pub struct SingleTodoResponse {
    pub status: String,
    pub data: TodoData,
}

/// An answer that lists records: `results` counts the records of the whole
/// store, `todos` holds the page that was asked for.
#[derive(Debug)]
pub struct TodoListResponse {
    pub status: String,
    pub results: usize,
    pub todos: Vec<Todo>,
}

} // verus!
