//! Who may do what with a contact.

use crate::entities::{contact, user};
use vstd::prelude::*;

verus! {

/// The name by which a user is shown: the name, and the address where the
/// user has no name.
pub fn user_display_name(user: &user::Model) -> (r: String)
    ensures
        r@ == match user.name {
            Some(name) => name@,
            None => user.email@,
        },
{
    match &user.name {
        Some(name) => name.clone(),
        None => user.email.clone(),
    }
}

/// Whether a contact belongs to a user.
pub open spec fn owns(user: user::Model, contact: contact::Model) -> bool {
    contact.owner_id == Some(user.id)
}

/// Whether `user` owns `contact`.
pub fn user_owns_contact(user: &user::Model, contact: &contact::Model) -> (r: bool)
    ensures
        r == owns(*user, *contact),
{
    match contact.owner_id {
        Some(id) => id == user.id,
        None => false,
    }
}

/// Whether `user` may edit `contact`: administrators and the owner may.
pub fn can_edit_contact(user: &user::Model, contact: &contact::Model) -> (r: bool)
    ensures
        r == (user.admin() || owns(*user, *contact)),
{
    user.is_admin() || user_owns_contact(user, contact)
}

/// Whether `user` may move `contact` to the trash: administrators and the
/// owner may.
pub fn can_trash_contact(user: &user::Model, contact: &contact::Model) -> (r: bool)
    ensures
        r == (user.admin() || owns(*user, *contact)),
{
    user.is_admin() || user_owns_contact(user, contact)
}

/// Whether `user` may list contacts: the trash is for administrators only.
pub fn can_list_contacts(user: &user::Model, trashed: bool) -> (r: bool)
    ensures
        r == (!trashed || user.admin()),
{
    !trashed || user.is_admin()
}

/// Whether a contact may be deleted for good: only from the trash.
pub fn can_delete_forever(contact: &contact::Model) -> (r: bool)
    ensures
        r == contact.is_trashed,
{
    contact.is_trashed
}

} // verus!
