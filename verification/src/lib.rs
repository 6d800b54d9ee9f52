//! A username/password authentication service with session tokens, and
//! per-user management of tasks grouped into categories.
//!
//! * [`model`] holds the identifier and token types shared by every layer;
//! * [`app`] holds the repository contracts and the two services built on
//!   them;
//! * [`storage`] holds the in-memory repository backend, verified against
//!   the contracts;
//! * [`api`] holds the computable part of the request boundary;
//! * [`response`] holds the transport-neutral response shaping.

pub mod api;
pub mod app;
pub mod model;
pub mod response;
pub mod storage;
