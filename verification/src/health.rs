//! The liveness and health replies.

use vstd::prelude::*;

verus! {

/// The HTTP status of a healthy reply.
pub const STATUS_OK: u16 = 200;

/// The HTTP status of a reply that reports a failure of the server.
pub const STATUS_INTERNAL_SERVER_ERROR: u16 = 500;

/// The reply to a health check: a message where the database answered, the
/// error where it did not.
#[derive(Debug, Clone)]
pub enum HealthBody {
    Message(String),
    Error(String),
}

/// The reply to a health check with its HTTP status.
#[derive(Debug, Clone)]
pub struct HealthReply {
    pub status: u16,
    pub body: HealthBody,
}

/// What the health check says where the database did not answer.
pub open spec fn probe_failure_text(error: Seq<char>) -> Seq<char> {
    "Postgres error: "@ + error
}

/// The greeting of the root path.
pub fn root_handler() -> (message: String)
    ensures
        message@ == "Hello from Axum!"@,
{
    String::from_str("Hello from Axum!")
}

/// The reply to a health check, given how the probe of the database ended:
/// status 200 with a message where it succeeded, status 500 with the error
/// where it failed.
pub fn check_database_connection(probe: &Result<(), String>) -> (reply: HealthReply)
    ensures
        match probe {
            Ok(_) => {
                &&& reply.status == STATUS_OK
                &&& reply.body matches HealthBody::Message(text)
                &&& text@ == "✅ Database connection successful"@
            },
            Err(error) => {
                &&& reply.status == STATUS_INTERNAL_SERVER_ERROR
                &&& reply.body matches HealthBody::Error(text)
                &&& text@ == probe_failure_text(error@)
            },
        },
{
    match probe {
        Ok(_) => HealthReply {
            status: STATUS_OK,
            body: HealthBody::Message(String::from_str("✅ Database connection successful")),
        },
        Err(error) => {
            let mut text = String::from_str("Postgres error: ");
            text.append(error.as_str());
            HealthReply { status: STATUS_INTERNAL_SERVER_ERROR, body: HealthBody::Error(text) }
        },
    }
}

} // verus!
