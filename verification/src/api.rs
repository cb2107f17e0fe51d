//! The request handlers, as pure steps.

pub mod auth;
pub mod users;
