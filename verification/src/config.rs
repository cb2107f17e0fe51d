//! Settings that the service reads at start-up.

use vstd::prelude::*;

verus! {

/// Where the database is and what the application is called.
#[derive(Debug)]
pub struct Config {
    pub database_url: String,
    pub app_name: String,
}

/// The account under which mail is sent.
#[derive(Debug)]
pub struct MailAccount {
    pub user: String,
    pub password: String,
}

/// The value of a setting: the text given, or `fallback` where none is.
pub open spec fn setting_or(given: Option<String>, fallback: Seq<char>) -> Seq<char> {
    match given {
        Some(text) => text@,
        None => fallback,
    }
}

/// The value of a setting: the text given, or `fallback` where none is.
fn value_or(given: Option<String>, fallback: &str) -> (value: String)
    ensures
        value@ == setting_or(given, fallback@),
{
    match given {
        Some(text) => text,
        None => String::from_str(fallback),
    }
}

impl Config {
    /// The settings for the database at `database_url`; an application
    /// without a name is called `X-ERP`.
    pub fn new(database_url: String, app_name: Option<String>) -> (config: Config)
        ensures
            config.database_url@ == database_url@,
            config.app_name@ == setting_or(app_name, "X-ERP"@),
    {
        Config { database_url, app_name: value_or(app_name, "X-ERP") }
    }
}

impl MailAccount {
    /// The mail account with the given user and password. Each falls back to
    /// a placeholder where it is not given; `is_placeholder` tells.
    pub fn new(user: Option<String>, password: Option<String>) -> (account: MailAccount)
        ensures
            account.user@ == setting_or(user, "default@example.com"@),
            account.password@ == setting_or(password, "default_password"@),
    {
        MailAccount {
            user: value_or(user, "default@example.com"),
            password: value_or(password, "default_password"),
        }
    }

    /// The user or the password is the placeholder.
    pub open spec fn placeholder(&self) -> bool {
        self.user@ == "default@example.com"@ || self.password@ == "default_password"@
    }

    /// Tells whether the user or the password is the placeholder, with which
    /// no mail should be sent in production.
    pub fn is_placeholder(&self) -> (r: bool)
        ensures
            r == self.placeholder(),
    {
        let user = String::from_str("default@example.com");
        let password = String::from_str("default_password");
        self.user == user || self.password == password
    }
}

} // verus!
