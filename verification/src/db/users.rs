//! The stored rows, and the registration codes derived from them.

use crate::clock::Timestamp;
use crate::outside::regex_first_match;
use crate::regcode::{
    admin_code_after, code_after, first_admin_code, first_code, has_sub_user_shape,
    next_sub_user_code, sub_user_code_after, sub_user_shape, trailing_digits,
};
use vstd::prelude::*;

verus! {

/// A registered user.
#[derive(Debug, Clone)]
pub struct User {
    pub id: i32,
    pub username: String,
    pub email: String,
    pub mobile: String,
}

/// A stored one-time password: the codes that are active under this row and
/// the moment the row was created.
#[derive(Debug, Clone)]
pub struct Otp {
    pub id: i32,
    pub otp: Vec<i32>,
    pub created_at: Timestamp,
}

/// An admin account.
#[derive(Debug, Clone)]
pub struct Admin {
    pub id: i32,
    pub regcode: String,
    pub user_name: String,
    pub mobile: String,
    pub email: String,
    pub pincode: String,
}

/// An account that belongs to an admin.
#[allow(non_camel_case_types)]
#[derive(Debug, Clone)]
pub struct Admin_Users {
    pub id: i32,
    pub admin_id: i32,
    pub regcode: String,
    pub user_name: String,
    pub mobile: String,
    pub email: String,
    pub pincode: String,
}

/// Why a database operation failed: the error code that the database gave,
/// if it gave one, and the error as text.
#[derive(Debug, Clone)]
pub struct DbFailure {
    pub code: Option<String>,
    pub text: String,
}

/// The error code with which the database reports a broken uniqueness
/// constraint.
pub open spec fn unique_violation_code() -> Seq<char> {
    "23505"@
}

impl DbFailure {
    /// The failure is a broken uniqueness constraint.
    pub open spec fn duplicate(&self) -> bool {
        self.code matches Some(code) && code@ == unique_violation_code()
    }

    /// Tells whether the failure is a broken uniqueness constraint.
    pub fn is_duplicate(&self) -> (r: bool)
        ensures
            r == self.duplicate(),
    {
        match &self.code {
            Some(code) => {
                let expected = String::from_str("23505");
                *code == expected
            },
            None => false,
        }
    }
}

/// What the search for the next sub-user code came to.
#[derive(Debug, Clone)]
pub enum SubUserCode {
    /// No admin row exists for the given id.
    NoAdmin,
    /// The admin has no sub-user whose code has the expected shape.
    NoPredecessor,
    /// The latest code ends in nothing that can be counted up.
    NoNumber,
    /// The next code of the series.
    Next(String),
}

impl SubUserCode {
    /// The code as text; empty for every outcome but `Next`.
    pub open spec fn text(&self) -> Seq<char> {
        match self {
            SubUserCode::Next(code) => code@,
            _ => Seq::empty(),
        }
    }

    /// The code as text; empty for every outcome but `Next`.
    pub fn into_code(self) -> (code: String)
        ensures
            code@ == self.text(),
    {
        match self {
            SubUserCode::Next(code) => code,
            _ => String::new(),
        }
    }
}

/// `row` belongs to the admin `admin_id` and its code has the shape of a
/// sub-user code.
pub open spec fn eligible(row: Admin_Users, admin_id: i32) -> bool {
    row.admin_id == admin_id && sub_user_shape(row.regcode@)
}

/// No row of `rows` is eligible.
pub open spec fn none_eligible(rows: Seq<Admin_Users>, admin_id: i32) -> bool {
    forall|j: int| 0 <= j < rows.len() ==> !eligible(#[trigger] rows[j], admin_id)
}

/// Row `k` is the latest eligible row: none has a higher id, and of the rows
/// with that id it comes first.
pub open spec fn latest_eligible(rows: Seq<Admin_Users>, admin_id: i32, k: int) -> bool {
    &&& 0 <= k < rows.len()
    &&& eligible(rows[k], admin_id)
    &&& forall|j: int|
        0 <= j < rows.len() && eligible(#[trigger] rows[j], admin_id) ==> rows[j].id <= rows[k].id
    &&& forall|j: int|
        0 <= j < k && eligible(#[trigger] rows[j], admin_id) ==> rows[j].id < rows[k].id
}

/// The outcome `found` is right for an admin with `admin_count` rows and the
/// sub-users `rows`.
pub open spec fn sub_user_code_for(
    admin_count: nat,
    rows: Seq<Admin_Users>,
    admin_id: i32,
    found: SubUserCode,
) -> bool {
    if admin_count == 0 {
        found is NoAdmin
    } else if none_eligible(rows, admin_id) {
        found is NoPredecessor
    } else {
        forall|k: int| #[trigger]
            latest_eligible(rows, admin_id, k) ==> {
                let code = rows[k].regcode@;
                let next = sub_user_code_after(code, regex_first_match(trailing_digits(), code));
                if next.len() == 0 {
                    found is NoNumber
                } else {
                    found matches SubUserCode::Next(text) && text@ == next
                }
            }
    }
}

/// The text `code` is the next sub-user code for an admin with `admin_count`
/// rows and the sub-users `rows`: empty where the admin does not exist or has
/// no eligible sub-user, else the code after that of the latest eligible row,
/// with the digits at its end found by the regular expression
/// `trailing_digits`.
pub open spec fn sub_user_text_for(
    admin_count: nat,
    rows: Seq<Admin_Users>,
    admin_id: i32,
    code: Seq<char>,
) -> bool {
    if admin_count == 0 || none_eligible(rows, admin_id) {
        code.len() == 0
    } else {
        forall|k: int| #[trigger]
            latest_eligible(rows, admin_id, k) ==> code == sub_user_code_after(
                rows[k].regcode@,
                regex_first_match(trailing_digits(), rows[k].regcode@),
            )
    }
}

/// The latest eligible row of `rows`, if there is one.
pub fn latest_sub_user(rows: &Vec<Admin_Users>, admin_id: i32) -> (r: Option<usize>)
    ensures
        match r {
            Some(k) => latest_eligible(rows@, admin_id, k as int),
            None => none_eligible(rows@, admin_id),
        },
{
    let mut best: Option<usize> = None;
    let mut i: usize = 0;
    while i < rows.len()
        invariant
            i <= rows.len(),
            match best {
                Some(k) => k < i && latest_eligible(rows@.subrange(0, i as int), admin_id, k as int),
                None => none_eligible(rows@.subrange(0, i as int), admin_id),
            },
        decreases rows.len() - i,
    {
        let ghost before = rows@.subrange(0, i as int);
        let ghost after = rows@.subrange(0, i as int + 1);
        assert(forall|j: int| 0 <= j < i ==> before[j] == after[j]);
        assert(after[i as int] == rows@[i as int]);
        let row = &rows[i];
        let fits = row.admin_id == admin_id && has_sub_user_shape(row.regcode.as_str());
        if fits {
            let better = match best {
                Some(k) => rows[k].id < row.id,
                None => true,
            };
            if better {
                best = Some(i);
            }
        }
        i = i + 1;
        proof {
            match best {
                Some(k) => {
                    assert(latest_eligible(after, admin_id, k as int));
                },
                None => {
                    assert(none_eligible(after, admin_id));
                },
            }
        }
    }
    assert(rows@.subrange(0, i as int) =~= rows@);
    best
}

/// Row `k` is the first row of `rows` that holds `code`.
pub open spec fn first_holder(rows: Seq<Otp>, code: i32, k: int) -> bool {
    &&& 0 <= k < rows.len()
    &&& rows[k].holds(code)
    &&& forall|j: int| 0 <= j < k ==> !(#[trigger] rows[j]).holds(code)
}

/// No row of `rows` holds `code`.
pub open spec fn no_holder(rows: Seq<Otp>, code: i32) -> bool {
    forall|j: int| 0 <= j < rows.len() ==> !(#[trigger] rows[j]).holds(code)
}

impl Otp {
    /// `code` is among the codes of this row.
    pub open spec fn holds(&self, code: i32) -> bool {
        self.otp@.contains(code)
    }

    /// Tells whether `code` is among the codes of this row.
    pub fn has_code(&self, code: i32) -> (r: bool)
        ensures
            r == self.holds(code),
    {
        let mut i: usize = 0;
        while i < self.otp.len()
            invariant
                i <= self.otp.len(),
                forall|j: int| 0 <= j < i ==> self.otp@[j] != code,
            decreases self.otp.len() - i,
        {
            if self.otp[i] == code {
                return true;
            }
            i = i + 1;
        }
        false
    }

    /// The first row of `rows` that holds `code`, if any does.
    pub fn find_code(rows: &Vec<Otp>, code: i32) -> (r: Option<usize>)
        ensures
            match r {
                Some(k) => first_holder(rows@, code, k as int),
                None => no_holder(rows@, code),
            },
    {
        let mut i: usize = 0;
        while i < rows.len()
            invariant
                i <= rows.len(),
                forall|j: int| 0 <= j < i ==> !(#[trigger] rows@[j]).holds(code),
            decreases rows.len() - i,
        {
            if rows[i].has_code(code) {
                return Some(i);
            }
            i = i + 1;
        }
        None
    }

    /// The code for the next admin, given the codes of all admins in the
    /// order of their ids: the code after the last one, or the first code of
    /// the series where there is none yet.
    pub fn generate_code(regcodes: &Vec<String>) -> (code: String)
        ensures
            regcodes@.len() == 0 ==> code@ == first_code(),
            regcodes@.len() > 0 ==> code@ == code_after(regcodes@.last()@),
    {
        if regcodes.len() == 0 {
            first_admin_code()
        } else {
            admin_code_after(regcodes[regcodes.len() - 1].as_str())
        }
    }

    /// The outcome of the search for the next sub-user code of the admin
    /// `admin_id`, given the admin rows found for that id and the sub-user
    /// rows.
    pub fn derive_code_for_users(
        admins: &Vec<Admin>,
        sub_users: &Vec<Admin_Users>,
        admin_id: i32,
    ) -> (found: SubUserCode)
        ensures
            sub_user_code_for(admins@.len(), sub_users@, admin_id, found),
    {
        if admins.len() == 0 {
            return SubUserCode::NoAdmin;
        }
        match latest_sub_user(sub_users, admin_id) {
            None => SubUserCode::NoPredecessor,
            Some(k) => {
                let next = next_sub_user_code(sub_users[k].regcode.as_str());
                proof {
                    lemma_latest_is_unique(sub_users@, admin_id, k as int);
                }
                if next.as_str().unicode_len() == 0 {
                    SubUserCode::NoNumber
                } else {
                    SubUserCode::Next(next)
                }
            },
        }
    }

    /// The next sub-user code of the admin `admin_id` as text; empty where
    /// the search came to no code.
    pub fn generate_code_for_users(
        admins: &Vec<Admin>,
        sub_users: &Vec<Admin_Users>,
        admin_id: &i32,
    ) -> (code: String)
        ensures
            sub_user_text_for(admins@.len(), sub_users@, *admin_id, code@),
    {
        let found = Self::derive_code_for_users(admins, sub_users, *admin_id);
        proof {
            if admins@.len() > 0 && !none_eligible(sub_users@, *admin_id) {
                assert forall|k: int| #[trigger]
                    latest_eligible(sub_users@, *admin_id, k) implies found.text()
                    == sub_user_code_after(
                    sub_users@[k].regcode@,
                    regex_first_match(trailing_digits(), sub_users@[k].regcode@),
                ) by {}
            }
        }
        found.into_code()
    }
}

/// There is at most one latest eligible row.
pub proof fn lemma_latest_is_unique(rows: Seq<Admin_Users>, admin_id: i32, k: int)
    requires
        latest_eligible(rows, admin_id, k),
    ensures
        forall|j: int| latest_eligible(rows, admin_id, j) ==> j == k,
        !none_eligible(rows, admin_id),
{
    assert forall|j: int| latest_eligible(rows, admin_id, j) implies j == k by {
        if j < k {
            assert(eligible(rows[j], admin_id));
        } else if k < j {
            assert(eligible(rows[k], admin_id));
        }
    }
    assert(eligible(rows[k], admin_id));
}

} // verus!
