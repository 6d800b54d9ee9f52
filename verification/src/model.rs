//! Identifier and token types shared by every layer of the service.

pub mod random;
pub mod sessions;
pub mod tasks;
pub mod text;
pub mod types;

pub use sessions::SessionToken;
pub use tasks::{TaskCategoryId, TaskId};
pub use types::{UniqueId, UserId};
