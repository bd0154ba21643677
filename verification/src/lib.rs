//! A mail engine: a credential vault, a MIME extractor, a thread resolver, an
//! inbox synchronisation engine over an in-memory model of the mail store, and
//! an outbound composer, with the rules of the application around them.
//!
//! The engine does no input or output. The caller runs the sessions with the
//! mail hosts and hands over what was fetched; the engine decides what is
//! stored and what is sent, and every such decision is stated in a contract.

pub mod auth;
pub mod contacts;
pub mod conversations_controller;
pub mod email_service;
pub mod entities;
pub mod outreach;
pub mod services;
pub mod text;
pub mod user_management;
pub mod weekly;
