//! Login by one-time password, its verification, and the registration of
//! users, admins and their sub-users.
//!
//! A handler is a chain of steps. Each step returns a [`Step`]: the reply
//! that ends the request, or the operation that the caller performs before it
//! calls the next step with the outcome.

use crate::clock::{expired, is_expired, Timestamp};
use crate::db::users::{first_holder, no_holder, sub_user_text_for, DbFailure, Otp, User};
use crate::regcode::{code_after, first_code};
use crate::decimal::{append_decimal, decimal};
use crate::outside::{build_message, mail_builds, random_in_range, utc_now};
use vstd::prelude::*;

verus! {

/// The body of a login or registration request.
#[derive(Debug, Clone)]
pub struct OTPRequest {
    pub email: String,
    pub mobile: String,
    pub username: String,
}

/// The body of a request to create an admin.
#[derive(Debug, Clone)]
pub struct Admin {
    pub id: Option<i32>,
    pub email: String,
    pub mobile: String,
    pub username: String,
    pub pincode: String,
    pub regocde: Option<String>,
}

/// The body of a request to create a sub-user of an admin.
#[allow(non_camel_case_types)]
#[derive(Debug, Clone)]
pub struct Admin_Users {
    pub id: Option<i32>,
    pub admin_id: i32,
    pub regcode: Option<String>,
    pub username: String,
    pub mobile: String,
    pub email: String,
    pub pincode: String,
}

/// The body of a request to verify a one-time password.
#[derive(Debug, Clone, Copy)]
pub struct OtpVerify {
    pub otp: u32,
}

/// Whether a request succeeded.
#[derive(Debug, Clone, Copy, PartialEq, Eq, Structural)]
pub enum Status {
    Success,
    Error,
}

/// The reply to a request: its status and a message.
#[derive(Debug, Clone, PartialEq, Eq)]
pub struct Reply {
    pub status: Status,
    pub message: String,
}

impl Reply {
    /// The reply reports an error with the text `message`.
    pub open spec fn is_error(&self, message: Seq<char>) -> bool {
        self.status == Status::Error && self.message@ == message
    }

    /// The reply reports success with the text `message`.
    pub open spec fn is_success(&self, message: Seq<char>) -> bool {
        self.status == Status::Success && self.message@ == message
    }

    /// An error reply.
    pub fn error(message: String) -> (reply: Reply)
        ensures
            reply.is_error(message@),
    {
        Reply { status: Status::Error, message }
    }

    /// A success reply.
    pub fn success(message: String) -> (reply: Reply)
        ensures
            reply.is_success(message@),
    {
        Reply { status: Status::Success, message }
    }
}

/// What a step of a handler comes to: the reply that ends the request, or the
/// operation to perform next.
#[derive(Debug)]
pub enum Step<T> {
    Reply(Reply),
    Do(T),
}

/// `text` with `tail` behind it.
fn joined(text: &str, tail: &str) -> (r: String)
    ensures
        r@ == text@ + tail@,
{
    let mut r = String::from_str(text);
    r.append(tail);
    r
}

// ---------------------------------------------------------------- login

/// The smallest one-time password.
pub const OTP_MIN: u32 = 100000;

/// The bound below which every one-time password lies.
pub const OTP_END: u32 = 999999;

/// A mail that carries a one-time password, ready to be sent.
#[derive(Debug)]
pub struct OutgoingMail {
    pub message: lettre::Message,
    pub otp: u32,
}

/// The request to store a one-time password.
#[derive(Debug, Clone, Copy)]
pub struct StoreOtp {
    pub otp: i32,
}

/// How the attempt to send a mail ended.
#[derive(Debug, Clone, Copy)]
pub enum Delivery {
    /// The transport could not be set up.
    TransportFailed,
    /// The transport refused or lost the mail.
    SendFailed,
    /// The mail went out.
    Sent,
}

/// The request names no e-mail address or no mobile number.
pub open spec fn lacks_contact(payload: OTPRequest) -> bool {
    payload.email@.len() == 0 || payload.mobile@.len() == 0
}

/// The sender of the mail, written as a mailbox with a display name.
pub open spec fn otp_sender(smtp_user: Seq<char>) -> Seq<char> {
    "OTP Service <"@ + smtp_user + ">"@
}

/// The subject of the mail.
pub open spec fn otp_subject() -> Seq<char> {
    "Your OTP Code"@
}

/// The text of the mail.
pub open spec fn otp_body(otp: u32) -> Seq<char> {
    "Your OTP is: "@ + decimal(otp as int)
}

/// The number under which the password `otp` is stored: `otp` itself where it
/// fits a signed 32-bit integer, else `otp` less 2^32.
pub open spec fn stored_code(otp: u32) -> i32 {
    if otp <= i32::MAX {
        otp as i32
    } else {
        (otp - 0x1_0000_0000) as i32
    }
}

/// What the reply to a successful login says.
pub open spec fn login_success_text(payload: OTPRequest) -> Seq<char> {
    "OTP sent to "@ + payload.mobile@ + " and "@ + payload.email@ + " and added to DB"@
}

/// Draws a new one-time password: six digits, at least `OTP_MIN` and below
/// `OTP_END`.
pub fn generate_otp() -> (otp: u32)
    ensures
        OTP_MIN <= otp < OTP_END,
{
    random_in_range(OTP_MIN, OTP_END)
}

/// The sender of the mail for the account `smtp_user`.
pub fn otp_sender_text(smtp_user: &str) -> (text: String)
    ensures
        text@ == otp_sender(smtp_user@),
{
    let mut text = String::from_str("OTP Service <");
    text.append(smtp_user);
    text.append(">");
    text
}

/// The subject of the mail.
pub fn otp_subject_text() -> (text: &'static str)
    ensures
        text@ == otp_subject(),
{
    "Your OTP Code"
}

/// The text of the mail that carries `otp`.
pub fn otp_body_text(otp: u32) -> (text: String)
    ensures
        text@ == otp_body(otp),
{
    let mut text = String::from_str("Your OTP is: ");
    append_decimal(&mut text, otp as i64);
    text
}

/// Tells under which number the password `otp` is stored.
pub fn to_stored_code(otp: u32) -> (code: i32)
    ensures
        code == stored_code(otp),
{
    if otp <= 0x7fff_ffff {
        otp as i32
    } else {
        (otp as i64 - 0x1_0000_0000) as i32
    }
}

/// The mail that carries `otp` from `smtp_user` to `recipient` can be
/// composed: a message is built from the sender, the recipient, the subject
/// and the text of the mail.
pub open spec fn composable(smtp_user: Seq<char>, recipient: Seq<char>, otp: u32) -> bool {
    mail_builds(otp_sender(smtp_user), recipient, otp_subject(), otp_body(otp))
}

/// Builds the mail that carries `otp` from `smtp_user` to `recipient`, with
/// the sender, subject and text of `otp_sender`, `otp_subject` and
/// `otp_body`. There is a mail exactly where a message is built from these
/// four texts; there is none where the sender or the recipient is no
/// mailbox.
pub fn compose_otp_mail(smtp_user: &str, recipient: &str, otp: u32) -> (message: Option<
    lettre::Message,
>)
    ensures
        message is Some <==> composable(smtp_user@, recipient@, otp),
{
    let sender = otp_sender_text(smtp_user);
    build_message(sender.as_str(), recipient, otp_subject_text(), otp_body_text(otp))
}

/// The first step of a login, once the password is drawn and the mail
/// composed: a request without e-mail address or mobile number is refused,
/// and so is one whose mail could not be composed; else the mail is to be
/// sent.
pub fn login_prepared(payload: &OTPRequest, otp: u32, message: Option<lettre::Message>) -> (step:
    Step<OutgoingMail>)
    ensures
        match step {
            Step::Reply(reply) => if lacks_contact(*payload) {
                reply.is_error("Missing email or mobile"@)
            } else {
                message is None && reply.is_error("Failed to create email message"@)
            },
            Step::Do(mail) => !lacks_contact(*payload) && message == Some(mail.message)
                && mail.otp == otp,
        },
{
    if payload.email.as_str().is_empty() || payload.mobile.as_str().is_empty() {
        return Step::Reply(Reply::error(String::from_str("Missing email or mobile")));
    }
    match message {
        Some(message) => Step::Do(OutgoingMail { message, otp }),
        None => Step::Reply(Reply::error(String::from_str("Failed to create email message"))),
    }
}

/// The first step of a login. A request without e-mail address or mobile
/// number is refused. Otherwise a password is drawn and mailed from
/// `smtp_user` to the address of the request: the mail is to be sent where it
/// can be composed for the password drawn, and the request fails where it
/// cannot.
pub fn login(payload: &OTPRequest, smtp_user: &str) -> (step: Step<OutgoingMail>)
    ensures
        match step {
            Step::Reply(reply) => if lacks_contact(*payload) {
                reply.is_error("Missing email or mobile"@)
            } else {
                &&& reply.is_error("Failed to create email message"@)
                &&& exists|otp: u32|
                    OTP_MIN <= otp < OTP_END && !#[trigger] composable(
                        smtp_user@,
                        payload.email@,
                        otp,
                    )
            },
            Step::Do(mail) => {
                &&& !lacks_contact(*payload)
                &&& OTP_MIN <= mail.otp < OTP_END
                &&& composable(smtp_user@, payload.email@, mail.otp)
            },
        },
{
    if payload.email.as_str().is_empty() || payload.mobile.as_str().is_empty() {
        return Step::Reply(Reply::error(String::from_str("Missing email or mobile")));
    }
    let otp = generate_otp();
    let message = compose_otp_mail(smtp_user, payload.email.as_str(), otp);
    login_prepared(payload, otp, message)
}

/// The step of a login after the attempt to send the mail: the password is
/// stored only if the mail went out.
pub fn login_delivered(delivery: Delivery, otp: u32) -> (step: Step<StoreOtp>)
    ensures
        match delivery {
            Delivery::TransportFailed => step matches Step::Reply(reply) && reply.is_error(
                "Failed to create email transport"@,
            ),
            Delivery::SendFailed => step matches Step::Reply(reply) && reply.is_error(
                "Email send error"@,
            ),
            Delivery::Sent => step matches Step::Do(store) && store.otp == stored_code(otp),
        },
{
    match delivery {
        Delivery::TransportFailed => Step::Reply(
            Reply::error(String::from_str("Failed to create email transport")),
        ),
        Delivery::SendFailed => Step::Reply(Reply::error(String::from_str("Email send error"))),
        Delivery::Sent => Step::Do(StoreOtp { otp: to_stored_code(otp) }),
    }
}

/// The last step of a login: the reply once the password is stored, or once
/// storing it failed.
pub fn login_stored(payload: &OTPRequest, stored: &Result<Otp, DbFailure>) -> (reply: Reply)
    ensures
        match stored {
            Ok(_) => reply.is_success(login_success_text(*payload)),
            Err(_) => reply.is_error("DB Error"@),
        },
{
    match stored {
        Ok(_) => {
            let mut text = String::from_str("OTP sent to ");
            text.append(payload.mobile.as_str());
            text.append(" and ");
            text.append(payload.email.as_str());
            text.append(" and added to DB");
            Reply::success(text)
        },
        Err(_) => Reply::error(String::from_str("DB Error")),
    }
}

// ---------------------------------------------------------------- verify

/// What to do about a submitted password: the row to delete, if one matched,
/// and the reply. The reply does not wait for the deletion, nor depend on
/// how it ends.
#[derive(Debug)]
pub struct VerifyPlan {
    pub delete: Option<i32>,
    pub reply: Reply,
}

/// `plan` is right for the password `code` submitted at `now`, given the
/// outcome `fetched` of reading all stored rows.
///
/// Where reading failed, nothing is deleted. Where no row holds the code, it
/// is reported as not found. Otherwise the first row that holds it is
/// deleted, whether the password is still valid or has expired.
pub open spec fn verify_plan_for(
    fetched: Result<Vec<Otp>, DbFailure>,
    code: i32,
    now: Timestamp,
    plan: VerifyPlan,
) -> bool {
    match fetched {
        Err(_) => plan.delete is None && plan.reply.is_error("DB Error"@),
        Ok(rows) => if no_holder(rows@, code) {
            plan.delete is None && plan.reply.is_error("OTP not found"@)
        } else {
            forall|k: int| #[trigger]
                first_holder(rows@, code, k) ==> {
                    &&& plan.delete == Some(rows@[k].id)
                    &&& if expired(rows@[k].created_at, now) {
                        plan.reply.is_error("OTP expired"@)
                    } else {
                        plan.reply.is_success("OTP verified successfully"@)
                    }
                }
        },
    }
}

/// Decides about the password of `payload`, submitted at `now`.
pub fn verify_otp_at(fetched: &Result<Vec<Otp>, DbFailure>, payload: &OtpVerify, now: Timestamp) -> (plan:
    VerifyPlan)
    ensures
        verify_plan_for(*fetched, stored_code(payload.otp), now, plan),
{
    let code = to_stored_code(payload.otp);
    match fetched {
        Err(_) => VerifyPlan { delete: None, reply: Reply::error(String::from_str("DB Error")) },
        Ok(rows) => match Otp::find_code(rows, code) {
            None => VerifyPlan {
                delete: None,
                reply: Reply::error(String::from_str("OTP not found")),
            },
            Some(k) => {
                let row = &rows[k];
                let reply = if is_expired(row.created_at, now) {
                    Reply::error(String::from_str("OTP expired"))
                } else {
                    Reply::success(String::from_str("OTP verified successfully"))
                };
                proof {
                    lemma_first_holder_is_unique(rows@, code, k as int);
                }
                VerifyPlan { delete: Some(row.id), reply }
            },
        },
    }
}

/// Decides about the password of `payload` at the time the clock shows.
pub fn verify_otp(fetched: &Result<Vec<Otp>, DbFailure>, payload: &OtpVerify) -> (plan: VerifyPlan)
    ensures
        exists|now: Timestamp| verify_plan_for(*fetched, stored_code(payload.otp), now, plan),
{
    let now = utc_now();
    verify_otp_at(fetched, payload, now)
}

/// At most one row is the first that holds a code.
pub proof fn lemma_first_holder_is_unique(rows: Seq<Otp>, code: i32, k: int)
    requires
        first_holder(rows, code, k),
    ensures
        forall|j: int| first_holder(rows, code, j) ==> j == k,
        !no_holder(rows, code),
{
    assert forall|j: int| first_holder(rows, code, j) implies j == k by {
        if j < k {
            assert(rows[j].holds(code));
        } else if k < j {
            assert(rows[k].holds(code));
        }
    }
    assert(rows[k].holds(code));
}

/// A password that matches is used up: whether it is still valid or has
/// expired, the plan deletes the row that held it.
pub proof fn lemma_match_is_deleted(rows: Vec<Otp>, code: i32, now: Timestamp, plan: VerifyPlan)
    requires
        verify_plan_for(Ok(rows), code, now, plan),
    ensures
        plan.delete is Some <==> !no_holder(rows@, code),
        plan.delete matches Some(id) ==> exists|k: int|
            first_holder(rows@, code, k) && rows@[k].id == id,
{
    if !no_holder(rows@, code) {
        lemma_first_holder_exists(rows@, code);
        let k = first_holder_index(rows@, code);
        assert(first_holder(rows@, code, k));
    }
}

/// The index of the first row that holds `code`, where one does.
pub open spec fn first_holder_index(rows: Seq<Otp>, code: i32) -> int {
    choose|k: int| first_holder(rows, code, k)
}

/// Where some row holds `code`, there is a first one.
pub proof fn lemma_first_holder_exists(rows: Seq<Otp>, code: i32)
    requires
        !no_holder(rows, code),
    ensures
        first_holder(rows, code, first_holder_index(rows, code)),
{
    let j = choose|j: int| 0 <= j < rows.len() && (#[trigger] rows[j]).holds(code);
    lemma_first_holder_below(rows, code, j);
}

/// Where row `j` holds `code`, there is a first row that does.
proof fn lemma_first_holder_below(rows: Seq<Otp>, code: i32, j: int)
    requires
        0 <= j < rows.len(),
        rows[j].holds(code),
    ensures
        exists|k: int| first_holder(rows, code, k),
    decreases j,
{
    if exists|i: int| 0 <= i < j && (#[trigger] rows[i]).holds(code) {
        let i = choose|i: int| 0 <= i < j && (#[trigger] rows[i]).holds(code);
        lemma_first_holder_below(rows, code, i);
    } else {
        assert(first_holder(rows, code, j));
    }
}

/// A row that is gone is not used up a second time: where no stored row has
/// the id `id`, no plan deletes `id`.
pub proof fn lemma_deleted_row_is_not_matched_again(
    rows: Vec<Otp>,
    code: i32,
    now: Timestamp,
    plan: VerifyPlan,
    id: i32,
)
    requires
        verify_plan_for(Ok(rows), code, now, plan),
        forall|j: int| 0 <= j < rows@.len() ==> (#[trigger] rows@[j]).id != id,
    ensures
        plan.delete != Some(id),
{
    if !no_holder(rows@, code) {
        lemma_first_holder_exists(rows@, code);
        let k = first_holder_index(rows@, code);
        assert(rows@[k].id != id);
    }
}

// ---------------------------------------------------------------- register

/// The user row to insert.
#[derive(Debug, Clone)]
pub struct NewUser {
    pub username: String,
    pub email: String,
    pub mobile: String,
}

/// The registration names no e-mail address, no mobile number or no user
/// name.
pub open spec fn lacks_identity(payload: OTPRequest) -> bool {
    payload.email@.len() == 0 || payload.mobile@.len() == 0 || payload.username@.len() == 0
}

/// The first step of a registration: an incomplete request is refused; a
/// complete one asks for one user row with exactly the name, address and
/// number submitted.
pub fn register(payload: &OTPRequest) -> (step: Step<NewUser>)
    ensures
        match step {
            Step::Reply(reply) => lacks_identity(*payload) && reply.is_error(
                "Missing email, mobile, or username"@,
            ),
            Step::Do(user) => {
                &&& !lacks_identity(*payload)
                &&& user.username@ == payload.username@
                &&& user.email@ == payload.email@
                &&& user.mobile@ == payload.mobile@
            },
        },
{
    if payload.email.as_str().is_empty() || payload.mobile.as_str().is_empty()
        || payload.username.as_str().is_empty() {
        return Step::Reply(Reply::error(String::from_str("Missing email, mobile, or username")));
    }
    Step::Do(
        NewUser {
            username: payload.username.clone(),
            email: payload.email.clone(),
            mobile: payload.mobile.clone(),
        },
    )
}

/// The last step of a registration: a broken uniqueness constraint is
/// reported as an existing user, never as a plain failure.
pub fn register_inserted(inserted: &Result<User, DbFailure>) -> (reply: Reply)
    ensures
        match inserted {
            Ok(_) => reply.is_success("Regritration successsfull !!"@),
            Err(failure) => if failure.duplicate() {
                reply.is_error("User with this email or phone already exists"@)
            } else {
                reply.is_error("Failed to Regrister user"@)
            },
        },
{
    match inserted {
        Ok(_) => Reply::success(String::from_str("Regritration successsfull !!")),
        Err(failure) => if failure.is_duplicate() {
            Reply::error(String::from_str("User with this email or phone already exists"))
        } else {
            Reply::error(String::from_str("Failed to Regrister user"))
        },
    }
}

// ---------------------------------------------------------------- admins

/// The request to read the codes of all admins, ordered by id.
#[derive(Debug, Clone, Copy)]
pub struct ReadAdminCodes {}

/// The admin row to insert.
#[derive(Debug, Clone)]
pub struct NewAdmin {
    pub regcode: String,
    pub user_name: String,
    pub mobile: String,
    pub email: String,
    pub pincode: String,
}

/// What the reply says where no code could be generated.
pub open spec fn code_failure_text(failure: DbFailure) -> Seq<char> {
    "Failed to generate code: "@ + failure.text@
}

/// What the reply says where the row could not be inserted.
pub open spec fn insert_failure_text(failure: DbFailure) -> Seq<char> {
    "Registration failed: "@ + failure.text@
}

/// The reply to a failed search for a code.
fn code_failure(failure: &DbFailure) -> (reply: Reply)
    ensures
        reply.is_error(code_failure_text(*failure)),
{
    Reply::error(joined("Failed to generate code: ", failure.text.as_str()))
}

/// The reply once an admin or sub-user row is inserted, or once inserting it
/// failed.
fn insert_reply(failure: Option<&DbFailure>) -> (reply: Reply)
    ensures
        match failure {
            None => reply.is_success("Registration successful!"@),
            Some(failure) => reply.is_error(insert_failure_text(*failure)),
        },
{
    match failure {
        None => Reply::success(String::from_str("Registration successful!")),
        Some(failure) => Reply::error(joined("Registration failed: ", failure.text.as_str())),
    }
}

impl Admin {
    /// A field that every admin needs is empty.
    pub open spec fn incomplete(&self) -> bool {
        self.email@.len() == 0 || self.mobile@.len() == 0 || self.username@.len() == 0
            || self.pincode@.len() == 0
    }
}

/// The code for the next admin, given the codes of all admins in the order of
/// their ids.
pub open spec fn next_admin_code(codes: Seq<String>) -> Seq<char> {
    if codes.len() == 0 {
        first_code()
    } else {
        code_after(codes.last()@)
    }
}

/// The first step of creating an admin: an incomplete request is refused; for
/// a complete one the codes of all admins are to be read.
pub fn create_admin(payload: &Admin) -> (step: Step<ReadAdminCodes>)
    ensures
        match step {
            Step::Reply(reply) => payload.incomplete() && reply.is_error(
                "Missing required fields"@,
            ),
            Step::Do(_) => !payload.incomplete(),
        },
{
    if payload.email.as_str().is_empty() || payload.mobile.as_str().is_empty()
        || payload.username.as_str().is_empty() || payload.pincode.as_str().is_empty() {
        return Step::Reply(Reply::error(String::from_str("Missing required fields")));
    }
    Step::Do(ReadAdminCodes {  })
}

/// The step of creating an admin after the codes were read: the row to
/// insert carries the next code of the series and the fields of the request.
pub fn create_admin_coded(payload: &Admin, codes: &Result<Vec<String>, DbFailure>) -> (step: Step<
    NewAdmin,
>)
    ensures
        match codes {
            Err(failure) => step matches Step::Reply(reply) && reply.is_error(
                code_failure_text(*failure),
            ),
            Ok(codes) => {
                &&& step matches Step::Do(admin)
                &&& admin.regcode@ == next_admin_code(codes@)
                &&& admin.user_name@ == payload.username@
                &&& admin.mobile@ == payload.mobile@
                &&& admin.email@ == payload.email@
                &&& admin.pincode@ == payload.pincode@
            },
        },
{
    match codes {
        Err(failure) => Step::Reply(code_failure(failure)),
        Ok(codes) => Step::Do(
            NewAdmin {
                regcode: Otp::generate_code(codes),
                user_name: payload.username.clone(),
                mobile: payload.mobile.clone(),
                email: payload.email.clone(),
                pincode: payload.pincode.clone(),
            },
        ),
    }
}

/// The last step of creating an admin.
pub fn create_admin_inserted(inserted: &Result<crate::db::users::Admin, DbFailure>) -> (reply:
    Reply)
    ensures
        match inserted {
            Ok(_) => reply.is_success("Registration successful!"@),
            Err(failure) => reply.is_error(insert_failure_text(*failure)),
        },
{
    match inserted {
        Ok(_) => insert_reply(None),
        Err(failure) => insert_reply(Some(failure)),
    }
}

// ---------------------------------------------------------------- sub-users

/// The request to read the admin rows for an id.
#[derive(Debug, Clone, Copy)]
pub struct FindAdmins {
    pub admin_id: i32,
}

/// The request to read the sub-user rows of an admin.
#[derive(Debug, Clone, Copy)]
pub struct FindSubUsers {
    pub admin_id: i32,
}

/// The sub-user row to insert.
#[derive(Debug, Clone)]
pub struct NewAdminUser {
    pub admin_id: i32,
    pub regcode: String,
    pub user_name: String,
    pub mobile: String,
    pub email: String,
    pub pincode: String,
}

/// What follows the lookup of the admin: the sub-user rows are read where the
/// admin exists; where it does not, the row is inserted without a code.
#[derive(Debug, Clone)]
pub enum AfterAdmins {
    Find(FindSubUsers),
    Insert(NewAdminUser),
}

impl Admin_Users {
    /// A field that every sub-user needs is empty.
    pub open spec fn incomplete(&self) -> bool {
        self.email@.len() == 0 || self.mobile@.len() == 0 || self.username@.len() == 0
            || self.pincode@.len() == 0
    }

    /// `row` carries the fields of this request under the code `code`.
    pub open spec fn carried_by(&self, row: NewAdminUser, code: Seq<char>) -> bool {
        &&& row.admin_id == self.admin_id
        &&& row.regcode@ == code
        &&& row.user_name@ == self.username@
        &&& row.mobile@ == self.mobile@
        &&& row.email@ == self.email@
        &&& row.pincode@ == self.pincode@
    }

    /// The row to insert for this request under the code `code`.
    fn to_row(&self, code: String) -> (row: NewAdminUser)
        ensures
            self.carried_by(row, code@),
    {
        NewAdminUser {
            admin_id: self.admin_id,
            regcode: code,
            user_name: self.username.clone(),
            mobile: self.mobile.clone(),
            email: self.email.clone(),
            pincode: self.pincode.clone(),
        }
    }
}

/// The first step of creating a sub-user: an incomplete request is refused;
/// for a complete one the admin rows for its `admin_id` are to be read.
pub fn create_admin_users(payload: &Admin_Users) -> (step: Step<FindAdmins>)
    ensures
        match step {
            Step::Reply(reply) => payload.incomplete() && reply.is_error(
                "Missing required fields"@,
            ),
            Step::Do(find) => !payload.incomplete() && find.admin_id == payload.admin_id,
        },
{
    if payload.email.as_str().is_empty() || payload.mobile.as_str().is_empty()
        || payload.username.as_str().is_empty() || payload.pincode.as_str().is_empty() {
        return Step::Reply(Reply::error(String::from_str("Missing required fields")));
    }
    Step::Do(FindAdmins { admin_id: payload.admin_id })
}

/// The step of creating a sub-user after the admin rows were read. Where no
/// admin exists the row is inserted with an empty code; where one exists its
/// sub-user rows are to be read.
pub fn create_admin_users_found(
    payload: &Admin_Users,
    admins: &Result<Vec<crate::db::users::Admin>, DbFailure>,
) -> (step: Step<AfterAdmins>)
    ensures
        match admins {
            Err(failure) => step matches Step::Reply(reply) && reply.is_error(
                code_failure_text(*failure),
            ),
            Ok(admins) => if admins@.len() == 0 {
                step matches Step::Do(AfterAdmins::Insert(row)) && payload.carried_by(
                    row,
                    Seq::empty(),
                )
            } else {
                step matches Step::Do(AfterAdmins::Find(find)) && find.admin_id
                    == payload.admin_id
            },
        },
{
    match admins {
        Err(failure) => Step::Reply(code_failure(failure)),
        Ok(admins) => if admins.len() == 0 {
            Step::Do(AfterAdmins::Insert(payload.to_row(String::new())))
        } else {
            Step::Do(AfterAdmins::Find(FindSubUsers { admin_id: payload.admin_id }))
        },
    }
}

/// The step of creating a sub-user after the sub-user rows were read: the row
/// to insert carries the next code of the admin's series, which is empty
/// where the series cannot be continued.
pub fn create_admin_users_coded(
    payload: &Admin_Users,
    admins: &Vec<crate::db::users::Admin>,
    sub_users: &Result<Vec<crate::db::users::Admin_Users>, DbFailure>,
) -> (step: Step<NewAdminUser>)
    ensures
        match sub_users {
            Err(failure) => step matches Step::Reply(reply) && reply.is_error(
                code_failure_text(*failure),
            ),
            Ok(rows) => {
                &&& step matches Step::Do(row)
                &&& payload.carried_by(row, row.regcode@)
                &&& sub_user_text_for(admins@.len(), rows@, payload.admin_id, row.regcode@)
            },
        },
{
    match sub_users {
        Err(failure) => Step::Reply(code_failure(failure)),
        Ok(rows) => {
            let code = Otp::generate_code_for_users(admins, rows, &payload.admin_id);
            Step::Do(payload.to_row(code))
        },
    }
}

/// The last step of creating a sub-user.
pub fn create_admin_users_inserted(
    inserted: &Result<crate::db::users::Admin_Users, DbFailure>,
) -> (reply: Reply)
    ensures
        match inserted {
            Ok(_) => reply.is_success("Registration successful!"@),
            Err(failure) => reply.is_error(insert_failure_text(*failure)),
        },
{
    match inserted {
        Ok(_) => insert_reply(None),
        Err(failure) => insert_reply(Some(failure)),
    }
}

} // verus!
