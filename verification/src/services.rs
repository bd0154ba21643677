//! The components of the mail engine.

pub mod encryption_service;
pub mod error;
pub mod imap_service;
pub mod mime;
pub mod persistence;
pub mod preparation;
pub mod smtp_service;
pub mod store;
pub mod threading;
