//! The calls into other crates. Verus takes the contracts in this file on
//! trust: each one says what the called function is documented to do.

use crate::clock::Timestamp;
use vstd::prelude::*;

verus! {

/// `lettre::Message`: an e-mail message that is ready to be handed to a
/// transport.
#[verifier::external_type_specification]
#[verifier::external_body]
pub struct ExMessage(lettre::Message);

/// The text of the first match of `pattern` in `haystack`, as
/// `regex::Regex::find` reports it; `None` where nothing matches or where
/// `pattern` is no regular expression.
pub uninterp spec fn regex_first_match(pattern: Seq<char>, haystack: Seq<char>) -> Option<
    Seq<char>,
>;

/// Whether `lettre` builds a message from these four texts: `from` and `to`
/// are mailboxes, such as `Name <user@host>` or `user@host`, by the `FromStr`
/// impl of `lettre::message::Mailbox`, and `lettre::Message::builder` gives a
/// message for them with this subject and body.
pub uninterp spec fn mail_builds(
    from: Seq<char>,
    to: Seq<char>,
    subject: Seq<char>,
    body: Seq<char>,
) -> bool;

/// Calls `rand::Rng::gen_range` on the thread's generator with the half-open
/// range from `low` to `high`. The result lies in that range; an empty range
/// would panic and is excluded.
#[verifier::external_body]
pub(crate) fn random_in_range(low: u32, high: u32) -> (r: u32)
    requires
        low < high,
    ensures
        low <= r < high,
{
    rand::Rng::gen_range(&mut rand::thread_rng(), low..high)
}

/// Compiles `pattern` with `regex::Regex::new` and searches `haystack` with
/// `regex::Regex::find`. The result is the matched text
/// (`regex::Match::as_str`), which is a part of `haystack` and so no longer
/// than it.
#[verifier::external_body]
pub(crate) fn first_match(pattern: &str, haystack: &str) -> (r: Option<String>)
    ensures
        match r {
            Some(text) => regex_first_match(pattern@, haystack@) == Some(text@) && text@.len()
                <= haystack@.len(),
            None => regex_first_match(pattern@, haystack@) is None,
        },
{
    match regex::Regex::new(pattern) {
        Ok(re) => match re.find(haystack) {
            Some(found) => Some(found.as_str().to_string()),
            None => None,
        },
        Err(_) => None,
    }
}

/// Reads the clock with `chrono::Utc::now` and splits the instant into
/// `chrono::DateTime::timestamp` and `timestamp_subsec_nanos`. Nothing is
/// promised of the result: it is whatever the system clock says. The call
/// panics on a machine whose clock stands before 1970.
#[verifier::external_body]
pub(crate) fn utc_now() -> (now: Timestamp) {
    let now = chrono::Utc::now();
    Timestamp { secs: now.timestamp(), nanos: now.timestamp_subsec_nanos() }
}

/// Reads `from` and `to` as mailboxes with the `FromStr` impl of
/// `lettre::message::Mailbox` and builds a message with
/// `lettre::Message::builder` and its `from`, `to`, `subject` and `body`;
/// `None` where a text is no mailbox or the builder reports an error. Whether
/// there is a message depends on the four texts alone. The message itself is
/// stamped with the current date, so nothing more is said of it.
#[verifier::external_body]
pub(crate) fn build_message(from: &str, to: &str, subject: &str, body: String) -> (r: Option<
    lettre::Message,
>)
    ensures
        r is Some <==> mail_builds(from@, to@, subject@, body@),
{
    let from = from.parse::<lettre::message::Mailbox>().ok()?;
    let to = to.parse::<lettre::message::Mailbox>().ok()?;
    lettre::Message::builder().from(from).to(to).subject(subject).body(body).ok()
}

} // verus!
