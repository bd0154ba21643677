//! The rules of access to user accounts: administrators may do everything,
//! other users may see and change only themselves.

use crate::entities::user;
use vstd::prelude::*;

verus! {

/// Whether `actor` is an administrator or is `target`.
pub open spec fn admin_or_self(actor: user::Model, target: user::Model) -> bool {
    actor.admin() || actor.id == target.id
}

/// Whether a user may create other users.
pub fn can_create_user(user: &user::Model) -> (r: bool)
    ensures
        r == user.admin(),
{
    user.is_admin()
}

/// Whether a user may delete another user. Administrators may delete
/// anyone, themselves included.
pub fn can_delete_user(actor: &user::Model, _target: &user::Model) -> (r: bool)
    ensures
        r == actor.admin(),
{
    actor.is_admin()
}

/// Whether a user may modify another user.
pub fn can_modify_user(actor: &user::Model, target: &user::Model) -> (r: bool)
    ensures
        r == admin_or_self(*actor, *target),
{
    actor.is_admin() || actor.id == target.id
}

/// Whether a user may change another user's password.
pub fn can_change_password(actor: &user::Model, target: &user::Model) -> (r: bool)
    ensures
        r == admin_or_self(*actor, *target),
{
    actor.is_admin() || actor.id == target.id
}

/// Whether a user may list all users.
pub fn can_list_users(user: &user::Model) -> (r: bool)
    ensures
        r == user.admin(),
{
    user.is_admin()
}

/// Whether a user may view another user's details.
pub fn can_view_user(actor: &user::Model, target: &user::Model) -> (r: bool)
    ensures
        r == admin_or_self(*actor, *target),
{
    actor.is_admin() || actor.id == target.id
}

} // verus!
