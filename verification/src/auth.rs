//! Who may do what.

pub mod middleware;
pub mod rbac;
