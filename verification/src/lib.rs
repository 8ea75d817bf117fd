//! An in-memory todo-list store: validated records held in an ordered
//! sequence, with a secondary title index kept consistent under mutation,
//! and a JSON snapshot form for persistence.

pub mod index;
pub mod json;
pub mod laws;
pub mod manager;
pub mod text;
pub mod todo;
