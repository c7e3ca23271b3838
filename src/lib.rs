//! Core logic of a local password manager: identifiers, timestamps, the
//! credential record with its validation rules, and an in-memory entry store.
pub mod text;
pub mod ident;
pub mod clock;
pub mod entry;
pub mod store;

pub use entry::{CreatePasswordEntry, PasswordEntry};
