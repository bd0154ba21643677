//! The records of the mail store, as plain values.
//!
//! Identifiers are 128-bit numbers and instants are milliseconds since the
//! Unix epoch, in UTC.

pub mod contact;
pub mod conversation;
pub mod email_attachment;
pub mod email_credential;
pub mod message;
pub mod user;
