//! Rows of the database and what is derived from them.

pub mod users;
