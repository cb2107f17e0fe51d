use otp_auth::api::auth::{
    create_admin, create_admin_coded, create_admin_inserted, create_admin_users,
    create_admin_users_coded, create_admin_users_found, create_admin_users_inserted, register,
    register_inserted, Admin, Admin_Users, AfterAdmins, OTPRequest, Reply, Status, Step,
};
use otp_auth::api::users::get_user;
use otp_auth::config::{Config, MailAccount};
use otp_auth::db::users::{DbFailure, User};
use otp_auth::health::{check_database_connection, root_handler, HealthBody};

fn request(email: &str, mobile: &str, username: &str) -> OTPRequest {
    OTPRequest {
        email: email.to_string(),
        mobile: mobile.to_string(),
        username: username.to_string(),
    }
}

fn error(message: &str) -> Reply {
    Reply { status: Status::Error, message: message.to_string() }
}

fn success(message: &str) -> Reply {
    Reply { status: Status::Success, message: message.to_string() }
}

fn failure(code: Option<&str>, text: &str) -> DbFailure {
    DbFailure { code: code.map(|c| c.to_string()), text: text.to_string() }
}

fn admin_request(email: &str, mobile: &str, username: &str, pincode: &str) -> Admin {
    Admin {
        id: None,
        email: email.to_string(),
        mobile: mobile.to_string(),
        username: username.to_string(),
        pincode: pincode.to_string(),
        regocde: None,
    }
}

fn sub_user_request(admin_id: i32, email: &str, mobile: &str, username: &str, pincode: &str) -> Admin_Users {
    Admin_Users {
        id: None,
        admin_id,
        regcode: Some("ignored".to_string()),
        username: username.to_string(),
        mobile: mobile.to_string(),
        email: email.to_string(),
        pincode: pincode.to_string(),
    }
}

fn admin_row(id: i32, regcode: &str) -> otp_auth::db::users::Admin {
    otp_auth::db::users::Admin {
        id,
        regcode: regcode.to_string(),
        user_name: "root".to_string(),
        mobile: "100".to_string(),
        email: "root@example.com".to_string(),
        pincode: "560001".to_string(),
    }
}

fn sub_user_row(id: i32, admin_id: i32, regcode: &str) -> otp_auth::db::users::Admin_Users {
    otp_auth::db::users::Admin_Users {
        id,
        admin_id,
        regcode: regcode.to_string(),
        user_name: "sub".to_string(),
        mobile: "200".to_string(),
        email: "sub@example.com".to_string(),
        pincode: "560002".to_string(),
    }
}

#[test]
fn registration_needs_every_field() {
    for payload in [
        request("", "555", "ann"),
        request("a@b.co", "", "ann"),
        request("a@b.co", "555", ""),
        request("", "", ""),
    ] {
        match register(&payload) {
            Step::Reply(reply) => assert_eq!(reply, error("Missing email, mobile, or username")),
            Step::Do(_) => panic!("row for an incomplete request"),
        }
    }
}

#[test]
fn registration_inserts_what_was_submitted() {
    match register(&request("ann@example.org", "555", "ann")) {
        Step::Do(user) => {
            assert_eq!(user.username, "ann");
            assert_eq!(user.email, "ann@example.org");
            assert_eq!(user.mobile, "555");
        }
        Step::Reply(reply) => panic!("{:?}", reply),
    }
}

#[test]
fn duplicate_user_is_reported_as_existing() {
    let taken = Err(failure(Some("23505"), "duplicate key value violates unique constraint"));
    assert_eq!(
        register_inserted(&taken),
        error("User with this email or phone already exists")
    );
    assert!(failure(Some("23505"), "").is_duplicate());
}

#[test]
fn other_failures_are_reported_as_failures() {
    for failed in [
        failure(None, "connection refused"),
        failure(Some("23502"), "null value"),
        failure(Some("235050"), ""),
        failure(Some(""), ""),
        failure(Some(" 23505"), ""),
    ] {
        assert!(!failed.is_duplicate());
        assert_eq!(register_inserted(&Err(failed)), error("Failed to Regrister user"));
    }
}

#[test]
fn registered_user_is_confirmed() {
    let user = User {
        id: 1,
        username: "ann".to_string(),
        email: "ann@example.org".to_string(),
        mobile: "555".to_string(),
    };
    assert_eq!(register_inserted(&Ok(user)), success("Regritration successsfull !!"));
}

#[test]
fn admin_needs_every_field() {
    for payload in [
        admin_request("", "555", "ann", "560001"),
        admin_request("a@b.co", "", "ann", "560001"),
        admin_request("a@b.co", "555", "", "560001"),
        admin_request("a@b.co", "555", "ann", ""),
    ] {
        match create_admin(&payload) {
            Step::Reply(reply) => assert_eq!(reply, error("Missing required fields")),
            Step::Do(_) => panic!("codes read for an incomplete request"),
        }
    }
    assert!(matches!(create_admin(&admin_request("a@b.co", "555", "ann", "560001")), Step::Do(_)));
}

#[test]
fn admin_gets_the_next_code() {
    let payload = admin_request("a@b.co", "555", "ann", "560001");
    match create_admin_coded(&payload, &Ok(vec!["G00001".to_string(), "G00002".to_string()])) {
        Step::Do(row) => {
            assert_eq!(row.regcode, "G00003");
            assert_eq!(row.user_name, "ann");
            assert_eq!(row.mobile, "555");
            assert_eq!(row.email, "a@b.co");
            assert_eq!(row.pincode, "560001");
        }
        Step::Reply(reply) => panic!("{:?}", reply),
    }
    match create_admin_coded(&payload, &Ok(vec![])) {
        Step::Do(row) => assert_eq!(row.regcode, "G00001"),
        Step::Reply(reply) => panic!("{:?}", reply),
    }
}

#[test]
fn admin_without_codes_read_fails() {
    let payload = admin_request("a@b.co", "555", "ann", "560001");
    match create_admin_coded(&payload, &Err(failure(None, "pool timed out"))) {
        Step::Reply(reply) => assert_eq!(reply, error("Failed to generate code: pool timed out")),
        Step::Do(_) => panic!("row without a code"),
    }
}

#[test]
fn admin_insert_is_reported() {
    assert_eq!(
        create_admin_inserted(&Ok(admin_row(1, "G00001"))),
        success("Registration successful!")
    );
    assert_eq!(
        create_admin_inserted(&Err(failure(Some("23505"), "duplicate key"))),
        error("Registration failed: duplicate key")
    );
}

#[test]
fn sub_user_needs_every_field() {
    for payload in [
        sub_user_request(7, "", "555", "ann", "560001"),
        sub_user_request(7, "a@b.co", "", "ann", "560001"),
        sub_user_request(7, "a@b.co", "555", "", "560001"),
        sub_user_request(7, "a@b.co", "555", "ann", ""),
    ] {
        match create_admin_users(&payload) {
            Step::Reply(reply) => assert_eq!(reply, error("Missing required fields")),
            Step::Do(_) => panic!("admin looked up for an incomplete request"),
        }
    }
    match create_admin_users(&sub_user_request(7, "a@b.co", "555", "ann", "560001")) {
        Step::Do(find) => assert_eq!(find.admin_id, 7),
        Step::Reply(reply) => panic!("{:?}", reply),
    }
}

#[test]
fn sub_user_of_no_admin_gets_no_code() {
    let payload = sub_user_request(7, "a@b.co", "555", "ann", "560001");
    match create_admin_users_found(&payload, &Ok(vec![])) {
        Step::Do(AfterAdmins::Insert(row)) => {
            assert_eq!(row.regcode, "");
            assert_eq!(row.admin_id, 7);
            assert_eq!(row.user_name, "ann");
            assert_eq!(row.mobile, "555");
            assert_eq!(row.email, "a@b.co");
            assert_eq!(row.pincode, "560001");
        }
        other => panic!("{:?}", other),
    }
}

#[test]
fn sub_user_of_an_admin_needs_the_sub_user_rows() {
    let payload = sub_user_request(7, "a@b.co", "555", "ann", "560001");
    match create_admin_users_found(&payload, &Ok(vec![admin_row(7, "G00007")])) {
        Step::Do(AfterAdmins::Find(find)) => assert_eq!(find.admin_id, 7),
        other => panic!("{:?}", other),
    }
    match create_admin_users_found(&payload, &Err(failure(None, "no such table"))) {
        Step::Reply(reply) => assert_eq!(reply, error("Failed to generate code: no such table")),
        other => panic!("{:?}", other),
    }
}

#[test]
fn sub_user_gets_the_next_code_of_its_admin() {
    let payload = sub_user_request(7, "a@b.co", "555", "ann", "560001");
    let admins = vec![admin_row(7, "G00007")];
    let rows = Ok(vec![sub_user_row(1, 7, "G00007U8"), sub_user_row(2, 7, "G00007U9")]);
    match create_admin_users_coded(&payload, &admins, &rows) {
        Step::Do(row) => {
            assert_eq!(row.regcode, "G00007U10");
            assert_eq!(row.admin_id, 7);
            assert_eq!(row.user_name, "ann");
            assert_eq!(row.mobile, "555");
            assert_eq!(row.email, "a@b.co");
            assert_eq!(row.pincode, "560001");
        }
        Step::Reply(reply) => panic!("{:?}", reply),
    }
    match create_admin_users_coded(&payload, &admins, &Ok(vec![])) {
        Step::Do(row) => assert_eq!(row.regcode, ""),
        Step::Reply(reply) => panic!("{:?}", reply),
    }
    match create_admin_users_coded(&payload, &admins, &Err(failure(None, "timeout"))) {
        Step::Reply(reply) => assert_eq!(reply, error("Failed to generate code: timeout")),
        Step::Do(_) => panic!("row without a code"),
    }
}

#[test]
fn sub_user_insert_is_reported() {
    assert_eq!(
        create_admin_users_inserted(&Ok(sub_user_row(1, 7, "G00007U1"))),
        success("Registration successful!")
    );
    assert_eq!(
        create_admin_users_inserted(&Err(failure(None, "column admin_id missing"))),
        error("Registration failed: column admin_id missing")
    );
}

#[test]
fn health_check_reports_the_database() {
    let reply = check_database_connection(&Ok(()));
    assert_eq!(reply.status, 200);
    match reply.body {
        HealthBody::Message(text) => assert_eq!(text, "✅ Database connection successful"),
        other => panic!("{:?}", other),
    }
    let reply = check_database_connection(&Err("connection refused".to_string()));
    assert_eq!(reply.status, 500);
    match reply.body {
        HealthBody::Error(text) => assert_eq!(text, "Postgres error: connection refused"),
        other => panic!("{:?}", other),
    }
}

#[test]
fn root_greets() {
    assert_eq!(root_handler(), "Hello from Axum!");
}

#[test]
fn user_lookup_echoes_the_id() {
    let info = get_user(42);
    assert_eq!(info.id, 42);
    assert_eq!(info.name, "John Doe");
    assert_eq!(get_user(-1).id, -1);
}

#[test]
fn config_falls_back_to_the_default_name() {
    let config = Config::new("postgres://localhost/erp".to_string(), None);
    assert_eq!(config.database_url, "postgres://localhost/erp");
    assert_eq!(config.app_name, "X-ERP");
    let config = Config::new("postgres://localhost/erp".to_string(), Some("Shop".to_string()));
    assert_eq!(config.app_name, "Shop");
}

#[test]
fn mail_account_tells_placeholders() {
    let account = MailAccount::new(None, None);
    assert_eq!(account.user, "default@example.com");
    assert_eq!(account.password, "default_password");
    assert!(account.is_placeholder());
    let account = MailAccount::new(Some("me@example.com".to_string()), None);
    assert_eq!(account.user, "me@example.com");
    assert!(account.is_placeholder());
    let account = MailAccount::new(None, Some("s3cret".to_string()));
    assert!(account.is_placeholder());
    let account = MailAccount::new(Some("me@example.com".to_string()), Some("s3cret".to_string()));
    assert_eq!(account.password, "s3cret");
    assert!(!account.is_placeholder());
}
