//! An in-memory store of todo records and the request logic of the small
//! JSON API that is served from it.

pub mod clock;
pub mod handler;
pub mod ident;
pub mod laws;
pub mod model;
pub mod response;
pub mod state;
