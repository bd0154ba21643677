//! Who a request comes from.

use crate::conversations_controller::Refusal;
use crate::entities::user;
use crate::text::{from_chars, has_prefix_at, subvec, to_chars};
use vstd::prelude::*;

verus! {

/// A user whose session is valid and whose account is active.
#[derive(Debug)]
pub struct AuthUser(pub user::Model);

/// An authenticated user who is an administrator.
#[derive(Debug)]
pub struct AdminUser(pub user::Model);

/// The scheme that stands before a bearer token.
pub open spec fn bearer_scheme() -> Seq<char> {
    seq!['B', 'e', 'a', 'r', 'e', 'r', ' ']
}

/// The token of an `Authorization` header: what follows `Bearer `.
pub open spec fn bearer_token_spec(header: Seq<char>) -> Option<Seq<char>> {
    if bearer_scheme().is_prefix_of(header) {
        Some(header.skip(7))
    } else {
        None
    }
}

/// Reads the token of an `Authorization` header.
pub fn bearer_token(header: &str) -> (r: Option<String>)
    ensures
        r.deep_view() == bearer_token_spec(header@),
{
    let chars = to_chars(header);
    let scheme = to_chars("Bearer ");
    proof {
        reveal_strlit("Bearer ");
        assert(scheme@ =~= bearer_scheme());
        assert(chars@.skip(0) == chars@);
    }
    if has_prefix_at(&chars, 0, &scheme) {
        let rest = subvec(&chars, 7, chars.len());
        assert(chars@.subrange(7, chars.len() as int) == chars@.skip(7));
        Some(from_chars(&rest))
    } else {
        None
    }
}

impl AuthUser {
    /// Accepts the user of a session. A session that has expired or whose
    /// user is gone lets nobody in; an account that is not active is refused.
    pub fn accept(session_expired: bool, user: Option<user::Model>) -> (r: Result<
        AuthUser,
        Refusal,
    >)
        ensures
            match r {
                Ok(auth) => !session_expired && user == Some(auth.0) && auth.0.is_active,
                Err(e) => e == (if session_expired || user is None {
                    Refusal::Unauthorized
                } else {
                    Refusal::Forbidden
                }) && (session_expired || user is None || !user->0.is_active),
            },
    {
        if session_expired {
            return Err(Refusal::Unauthorized);
        }
        match user {
            None => Err(Refusal::Unauthorized),
            Some(model) => {
                if !model.is_active {
                    Err(Refusal::Forbidden)
                } else {
                    Ok(AuthUser(model))
                }
            },
        }
    }
}

impl AdminUser {
    /// Accepts an authenticated user as administrator.
    pub fn accept(auth: AuthUser) -> (r: Result<AdminUser, Refusal>)
        ensures
            match r {
                Ok(admin) => admin.0 == auth.0 && auth.0.admin(),
                Err(e) => e == Refusal::Forbidden && !auth.0.admin(),
            },
    {
        if auth.0.is_admin() {
            Ok(AdminUser(auth.0))
        } else {
            Err(Refusal::Forbidden)
        }
    }
}

} // verus!
