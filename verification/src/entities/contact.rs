//! A contact person at a startup.

use vstd::prelude::*;

verus! {

/// One contact.
#[derive(Debug)]
pub struct Model {
    pub id: u128,
    pub startup_id: u128,
    pub name: String,
    pub role: String,
    pub email: Option<String>,
    pub phone: Option<String>,
    pub linkedin_url: Option<String>,
    pub is_primary: bool,
    pub notes: Option<String>,
    pub is_trashed: bool,
    pub owner_id: Option<u128>,
}

/// The mathematical value of a contact.
pub struct ModelView {
    pub id: u128,
    pub startup_id: u128,
    pub name: Seq<char>,
    pub role: Seq<char>,
    pub email: Option<Seq<char>>,
    pub phone: Option<Seq<char>>,
    pub linkedin_url: Option<Seq<char>>,
    pub is_primary: bool,
    pub notes: Option<Seq<char>>,
    pub is_trashed: bool,
    pub owner_id: Option<u128>,
}

impl DeepView for Model {
    type V = ModelView;

    open spec fn deep_view(&self) -> ModelView {
        ModelView {
            id: self.id,
            startup_id: self.startup_id,
            name: self.name@,
            role: self.role@,
            email: self.email.deep_view(),
            phone: self.phone.deep_view(),
            linkedin_url: self.linkedin_url.deep_view(),
            is_primary: self.is_primary,
            notes: self.notes.deep_view(),
            is_trashed: self.is_trashed,
            owner_id: self.owner_id,
        }
    }
}

} // verus!
