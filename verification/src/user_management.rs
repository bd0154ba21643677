//! The management of user accounts: who may create, change and remove
//! them, and what a change may touch.

use crate::auth::rbac::{
    admin_or_self, can_change_password, can_create_user, can_delete_user, can_modify_user,
    can_view_user,
};
use crate::conversations_controller::Refusal;
use crate::entities::user::{self, admin_role, user_role};
use crate::text::str_eq;
use vstd::prelude::*;

verus! {

/// A user as it is requested to be created.
#[derive(Debug)]
pub struct CreateUserRequest {
    pub email: String,
    pub password: String,
    pub name: Option<String>,
    /// `"admin"` or `"user"`.
    pub role: String,
}

/// The changes that are requested for a user.
#[derive(Debug)]
pub struct UpdateUserRequest {
    pub email: Option<String>,
    pub name: Option<String>,
    pub role: Option<String>,
    pub is_active: Option<bool>,
}

/// A new password as it is requested for a user.
#[derive(Debug)]
pub struct ChangePasswordRequest {
    pub new_password: String,
}

/// Whether a text names a role.
pub open spec fn is_role(role: Seq<char>) -> bool {
    role == admin_role() || role == user_role()
}

/// Whether a text names a role.
pub fn valid_role(role: &str) -> (r: bool)
    ensures
        r == is_role(role@),
{
    proof {
        reveal_strlit("admin");
        reveal_strlit("user");
        assert("admin"@ =~= admin_role());
        assert("user"@ =~= user_role());
    }
    str_eq(role, "admin") || str_eq(role, "user")
}

/// Settles the account that `actor` asks to create. Only administrators may
/// create accounts, and only with a known role. The new account is active
/// and its address is not verified.
pub fn create_user(
    actor: &user::Model,
    payload: CreateUserRequest,
    id: u128,
    password_hash: String,
    now: i64,
) -> (r: Result<user::Model, Refusal>)
    ensures
        match r {
            Err(e) => e == (if !actor.admin() {
                Refusal::Forbidden
            } else {
                Refusal::BadRequest
            }) && (!actor.admin() || !is_role(payload.role@)),
            Ok(u) => {
                &&& actor.admin()
                &&& is_role(payload.role@)
                &&& u.id == id
                &&& u.email == payload.email
                &&& u.password_hash == password_hash
                &&& u.name == payload.name
                &&& u.role == payload.role
                &&& u.is_active
                &&& !u.email_verified
                &&& u.created_at == now
                &&& u.updated_at == now
            },
        },
{
    if !can_create_user(actor) {
        return Err(Refusal::Forbidden);
    }
    if !valid_role(payload.role.as_str()) {
        return Err(Refusal::BadRequest);
    }
    Ok(
        user::Model {
            id,
            email: payload.email,
            password_hash,
            name: payload.name,
            role: payload.role,
            is_active: true,
            email_verified: false,
            created_at: now,
            updated_at: now,
        },
    )
}

/// Whether `actor` may see `target`.
pub fn get_user(actor: &user::Model, target: &user::Model) -> (r: Result<(), Refusal>)
    ensures
        r == (if admin_or_self(*actor, *target) {
            Ok::<(), Refusal>(())
        } else {
            Err::<(), Refusal>(Refusal::Forbidden)
        }),
{
    if can_view_user(actor, target) {
        Ok(())
    } else {
        Err(Refusal::Forbidden)
    }
}

/// Applies the changes that `actor` asks for to `target`. Users may change
/// their own name; the address, the role and whether the account is active
/// are for administrators only, and a request of anyone else to change
/// them is passed over in silence.
pub fn update_user(
    actor: &user::Model,
    target: user::Model,
    payload: UpdateUserRequest,
    now: i64,
) -> (r: Result<user::Model, Refusal>)
    ensures
        match r {
            Err(e) => if !admin_or_self(*actor, target) {
                e == Refusal::Forbidden
            } else {
                e == Refusal::BadRequest && actor.admin() && payload.role is Some && !is_role(
                    payload.role->0@,
                )
            },
            Ok(u) => {
                &&& admin_or_self(*actor, target)
                &&& u.id == target.id
                &&& u.password_hash == target.password_hash
                &&& u.email_verified == target.email_verified
                &&& u.created_at == target.created_at
                &&& u.updated_at == now
                &&& u.name == (match payload.name {
                    Some(name) => Some(name),
                    None => target.name,
                })
                &&& u.email == (match payload.email {
                    Some(email) if actor.admin() => email,
                    _ => target.email,
                })
                &&& u.role == (match payload.role {
                    Some(role) if actor.admin() => role,
                    _ => target.role,
                })
                &&& u.is_active == (match payload.is_active {
                    Some(active) if actor.admin() => active,
                    _ => target.is_active,
                })
                &&& actor.admin() && payload.role is Some ==> is_role(payload.role->0@)
            },
        },
{
    if !can_modify_user(actor, &target) {
        return Err(Refusal::Forbidden);
    }
    let mut updated = target;
    if actor.is_admin() {
        if let Some(email) = payload.email {
            updated.email = email;
        }
        if let Some(role) = payload.role {
            if !valid_role(role.as_str()) {
                return Err(Refusal::BadRequest);
            }
            updated.role = role;
        }
        if let Some(is_active) = payload.is_active {
            updated.is_active = is_active;
        }
    }
    if let Some(name) = payload.name {
        updated.name = Some(name);
    }
    updated.updated_at = now;
    Ok(updated)
}

/// Whether `actor` may remove `target`.
pub fn delete_user(actor: &user::Model, target: &user::Model) -> (r: Result<(), Refusal>)
    ensures
        r == (if actor.admin() {
            Ok::<(), Refusal>(())
        } else {
            Err::<(), Refusal>(Refusal::Forbidden)
        }),
{
    if can_delete_user(actor, target) {
        Ok(())
    } else {
        Err(Refusal::Forbidden)
    }
}

/// Gives `target` the password whose hash is `password_hash`, where `actor`
/// may do so.
pub fn change_password(
    actor: &user::Model,
    target: user::Model,
    password_hash: String,
    now: i64,
) -> (r: Result<user::Model, Refusal>)
    ensures
        match r {
            Err(e) => e == Refusal::Forbidden && !admin_or_self(*actor, target),
            Ok(u) => admin_or_self(*actor, target) && u == (user::Model {
                password_hash,
                updated_at: now,
                ..target
            }),
        },
{
    if !can_change_password(actor, &target) {
        return Err(Refusal::Forbidden);
    }
    let mut updated = target;
    updated.password_hash = password_hash;
    updated.updated_at = now;
    Ok(updated)
}

} // verus!
