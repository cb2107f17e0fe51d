//! Decision logic of a small registration and one-time-password backend.
//!
//! Every request handler is split into pure steps: a step takes the request,
//! or the outcome of the database or mail operation that the caller just
//! performed, and returns either the final reply or the next operation to
//! perform. The registration-code generator works on the codes that the
//! caller has read from storage.

pub mod api;
pub mod clock;
pub mod config;
pub mod db;
pub mod decimal;
pub mod health;
pub mod outside;
pub mod regcode;
