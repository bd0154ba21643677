//! A user of the application.

use crate::text::str_eq;
use vstd::prelude::*;

verus! {

/// The role name of administrators.
pub open spec fn admin_role() -> Seq<char> {
    seq!['a', 'd', 'm', 'i', 'n']
}

/// The role name of ordinary users.
pub open spec fn user_role() -> Seq<char> {
    seq!['u', 's', 'e', 'r']
}

/// One user account.
#[derive(Debug)]
pub struct Model {
    pub id: u128,
    pub email: String,
    pub password_hash: String,
    pub name: Option<String>,
    /// `"admin"` or `"user"`.
    pub role: String,
    pub is_active: bool,
    pub email_verified: bool,
    pub created_at: i64,
    pub updated_at: i64,
}

impl Model {
    /// Whether the account holds the administrator role.
    pub open spec fn admin(&self) -> bool {
        self.role@ == admin_role()
    }

    /// Whether the account holds the administrator role.
    pub fn is_admin(&self) -> (r: bool)
        ensures
            r == self.admin(),
    {
        proof {
            reveal_strlit("admin");
            assert("admin"@ =~= admin_role());
        }
        str_eq(self.role.as_str(), "admin")
    }

    /// Whether the account holds the ordinary user role.
    pub fn is_user(&self) -> (r: bool)
        ensures
            r == (self.role@ == user_role()),
    {
        proof {
            reveal_strlit("user");
            assert("user"@ =~= user_role());
        }
        str_eq(self.role.as_str(), "user")
    }
}

} // verus!
