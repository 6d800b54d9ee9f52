//! The service layer: repository contracts and the services built on them.

pub mod auth;
pub mod repositories;
pub mod tasks;
