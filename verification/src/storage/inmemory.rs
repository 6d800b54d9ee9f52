//! The in-memory repository backend.
//!
//! Each operation takes the whole repository exclusively (`&mut self` where
//! it writes), so one call is one atomic step: the uniqueness checks and
//! the writes they guard can never interleave. A process that shares a
//! repository across threads wraps it in an exclusive lock and holds the
//! lock for the duration of the call.

use vstd::prelude::*;

use crate::app::repositories::{
    CategoryRecord, SessionRecord, SessionsRepository, TaskRecord, TasksRepository, UserRecord,
    UsersRepositry,
};

pub mod sessions;
pub mod tasks;
pub mod users;

pub use sessions::InMemorySessions;
pub use tasks::InMemoryTasks;
pub use users::InMemoryUsers;

verus! {

/// One repository per entity family, all freshly created and empty.
pub struct Repositories {
    pub sessions: InMemorySessions,
    pub users: InMemoryUsers,
    pub tasks: InMemoryTasks,
}

/// Creates the complete set of in-memory repositories.
pub fn create_inmemory_repositories() -> (r: Repositories)
    ensures
        r.sessions.inv(),
        r.users.inv(),
        r.tasks.inv(),
        r.sessions.sessions() == Seq::<SessionRecord>::empty(),
        r.users.users() == Seq::<UserRecord>::empty(),
        r.tasks.tasks() == Seq::<TaskRecord>::empty(),
        r.tasks.categories() == Seq::<CategoryRecord>::empty(),
{
    Repositories {
        sessions: InMemorySessions::new(),
        users: InMemoryUsers::new(),
        tasks: InMemoryTasks::new(),
    }
}

} // verus!
