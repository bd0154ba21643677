//! The failures of the mail engine, by kind.

use crate::services::encryption_service::VaultError;
use crate::services::store::StoreError;
use vstd::prelude::*;

verus! {

/// Why an operation of the mail engine failed.
#[derive(Debug)]
pub enum MailError {
    /// The mail host could not be reached, or the secure channel failed.
    Connection(String),
    /// The mail host refused the credentials.
    Authentication(String),
    /// The mail host answered what the protocol does not allow.
    Protocol(String),
    /// A message could not be parsed.
    Parse(String),
    /// The vault could not open the account secret.
    Decryption(VaultError),
    /// The store refused a write.
    Persistence(StoreError),
    /// The request itself is not acceptable.
    Validation(String),
    /// The user has no mail account.
    MissingCredentials,
}

/// The mathematical value of a [`MailError`].
pub enum MailErrorView {
    Connection(Seq<char>),
    Authentication(Seq<char>),
    Protocol(Seq<char>),
    Parse(Seq<char>),
    Decryption(VaultError),
    Persistence(StoreError),
    Validation(Seq<char>),
    MissingCredentials,
}

impl MailErrorView {
    /// The report of the error in words, as it is recorded on the account.
    pub open spec fn message_spec(self) -> Seq<char> {
        match self {
            MailErrorView::Connection(text) => text,
            MailErrorView::Authentication(text) => text,
            MailErrorView::Protocol(text) => text,
            MailErrorView::Parse(text) => text,
            MailErrorView::Decryption(e) => e.message_spec(),
            MailErrorView::Persistence(e) => e.message_spec(),
            MailErrorView::Validation(text) => text,
            MailErrorView::MissingCredentials => "No email credentials found"@,
        }
    }
}

impl DeepView for MailError {
    type V = MailErrorView;

    open spec fn deep_view(&self) -> MailErrorView {
        match self {
            MailError::Connection(text) => MailErrorView::Connection(text@),
            MailError::Authentication(text) => MailErrorView::Authentication(text@),
            MailError::Protocol(text) => MailErrorView::Protocol(text@),
            MailError::Parse(text) => MailErrorView::Parse(text@),
            MailError::Decryption(e) => MailErrorView::Decryption(*e),
            MailError::Persistence(e) => MailErrorView::Persistence(*e),
            MailError::Validation(text) => MailErrorView::Validation(text@),
            MailError::MissingCredentials => MailErrorView::MissingCredentials,
        }
    }
}

impl MailError {
    /// The report of the error in words. It never holds a secret.
    pub fn message(&self) -> (r: String)
        ensures
            r@ == self.deep_view().message_spec(),
    {
        match self {
            MailError::Connection(text) => text.clone(),
            MailError::Authentication(text) => text.clone(),
            MailError::Protocol(text) => text.clone(),
            MailError::Parse(text) => text.clone(),
            MailError::Decryption(e) => e.message().to_string(),
            MailError::Persistence(e) => e.message().to_string(),
            MailError::Validation(text) => text.clone(),
            MailError::MissingCredentials => "No email credentials found".to_string(),
        }
    }

    /// A copy of the error.
    pub fn duplicate(&self) -> (r: MailError)
        ensures
            r.deep_view() == self.deep_view(),
    {
        match self {
            MailError::Connection(text) => MailError::Connection(text.clone()),
            MailError::Authentication(text) => MailError::Authentication(text.clone()),
            MailError::Protocol(text) => MailError::Protocol(text.clone()),
            MailError::Parse(text) => MailError::Parse(text.clone()),
            MailError::Decryption(e) => MailError::Decryption(*e),
            MailError::Persistence(e) => MailError::Persistence(*e),
            MailError::Validation(text) => MailError::Validation(text.clone()),
            MailError::MissingCredentials => MailError::MissingCredentials,
        }
    }
}

} // verus!
