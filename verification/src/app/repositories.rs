//! The storage-agnostic repository contract.
//!
//! Three capability sets — users, sessions, tasks — each a narrow set of
//! operations with defined success/absence/error semantics. Every backend
//! must satisfy these contracts identically; the in-memory backend under
//! [`crate::storage`] is verified against them.

use vstd::prelude::*;

use crate::model::random::hex_id;
use crate::model::sessions::SessionToken;
use crate::model::tasks::{CategoryView, TaskCategoryDescription, TaskDescription, TaskId, TaskView};
use crate::model::types::UserId;

verus! {

/// A storage/infrastructure failure. These are never user-facing domain
/// errors: the boundary maps them to an opaque server-error indicator.
#[derive(Debug)]
pub enum RepoError {
    /// A unique-key constraint would be violated (e.g. a duplicate username).
    UniqueViolation,
    /// A freshly generated random identifier collided with a stored one.
    IdCollision,
    /// The 64-bit identifier space is exhausted and no fresh id exists.
    IdsExhausted,
    /// No stored row matches the given key.
    NotFound,
    /// Any other backend failure, such as lost connectivity.
    Backend,
}

/// One user row: unique id, unique case-sensitive username, and the stored
/// password.
pub struct UserRecord {
    pub user_id: int,
    pub username: Seq<char>,
    pub password: Seq<char>,
}

/// One session row: a token and the user it authorizes.
pub struct SessionRecord {
    pub token: Seq<char>,
    pub user_id: int,
}

/// One task row: the owning user and the task's content.
pub struct TaskRecord {
    pub user_id: int,
    pub task: TaskView,
}

/// One category row: the owning user and the category's content.
pub struct CategoryRecord {
    pub user_id: int,
    pub category: CategoryView,
}

/// The first user row with the given username, if any.
pub open spec fn user_by_name(users: Seq<UserRecord>, name: Seq<char>) -> Option<UserRecord>
    decreases users.len(),
{
    if users.len() == 0 {
        None
    } else if users[0].username == name {
        Some(users[0])
    } else {
        user_by_name(users.drop_first(), name)
    }
}

/// Whether some user row carries the given username.
pub open spec fn name_exists(users: Seq<UserRecord>, name: Seq<char>) -> bool {
    user_by_name(users, name) is Some
}

/// The first user row with the given id, if any.
pub open spec fn user_by_id(users: Seq<UserRecord>, id: int) -> Option<UserRecord>
    decreases users.len(),
{
    if users.len() == 0 {
        None
    } else if users[0].user_id == id {
        Some(users[0])
    } else {
        user_by_id(users.drop_first(), id)
    }
}

/// Whether some user row carries the given id.
pub open spec fn id_exists(users: Seq<UserRecord>, id: int) -> bool {
    user_by_id(users, id) is Some
}

/// No two user rows share a username or an id.
pub open spec fn users_wf(users: Seq<UserRecord>) -> bool {
    forall|i: int, j: int|
        0 <= i < j < users.len() ==> users[i].username != users[j].username
            && users[i].user_id != users[j].user_id
}

/// The user id the first session row with the given token authorizes, if any.
pub open spec fn token_lookup(sessions: Seq<SessionRecord>, token: Seq<char>) -> Option<int>
    decreases sessions.len(),
{
    if sessions.len() == 0 {
        None
    } else if sessions[0].token == token {
        Some(sessions[0].user_id)
    } else {
        token_lookup(sessions.drop_first(), token)
    }
}

/// Whether some session row carries the given token.
pub open spec fn token_exists(sessions: Seq<SessionRecord>, token: Seq<char>) -> bool {
    token_lookup(sessions, token) is Some
}

/// No two session rows share a token.
pub open spec fn sessions_wf(sessions: Seq<SessionRecord>) -> bool {
    forall|i: int, j: int|
        0 <= i < j < sessions.len() ==> sessions[i].token != sessions[j].token
}

/// The tasks owned by the given user, in storage order.
pub open spec fn tasks_of(tasks: Seq<TaskRecord>, uid: int) -> Seq<TaskView>
    decreases tasks.len(),
{
    if tasks.len() == 0 {
        Seq::empty()
    } else {
        let init = tasks_of(tasks.drop_last(), uid);
        if tasks.last().user_id == uid {
            init.push(tasks.last().task)
        } else {
            init
        }
    }
}

/// Whether the given user owns a task with the given id.
pub open spec fn has_task(tasks: Seq<TaskRecord>, uid: int, tid: Seq<char>) -> bool {
    exists|i: int|
        0 <= i < tasks.len() && tasks[i].user_id == uid && tasks[i].task.task_id == tid
}

/// No two task rows share both owner and task id.
pub open spec fn tasks_wf(tasks: Seq<TaskRecord>) -> bool {
    forall|i: int, j: int|
        0 <= i < j < tasks.len() ==> !(tasks[i].user_id == tasks[j].user_id
            && tasks[i].task.task_id == tasks[j].task.task_id)
}

/// The categories owned by the given user, in storage order.
pub open spec fn categories_of(categories: Seq<CategoryRecord>, uid: int) -> Seq<CategoryView>
    decreases categories.len(),
{
    if categories.len() == 0 {
        Seq::empty()
    } else {
        let init = categories_of(categories.drop_last(), uid);
        if categories.last().user_id == uid {
            init.push(categories.last().category)
        } else {
            init
        }
    }
}

/// Whether the given user owns a category with the given id.
pub open spec fn has_category(categories: Seq<CategoryRecord>, uid: int, cid: Seq<char>) -> bool {
    exists|i: int|
        0 <= i < categories.len() && categories[i].user_id == uid
            && categories[i].category.category_id == cid
}

/// No two category rows share both owner and category id.
pub open spec fn categories_wf(categories: Seq<CategoryRecord>) -> bool {
    forall|i: int, j: int|
        0 <= i < j < categories.len() ==> !(categories[i].user_id == categories[j].user_id
            && categories[i].category.category_id == categories[j].category.category_id)
}

/// Session issuance and lookup.
pub trait SessionsRepository: Sized {
    /// The backend's internal well-formedness.
    spec fn inv(&self) -> bool;

    /// The stored session rows.
    spec fn sessions(&self) -> Seq<SessionRecord>;

    /// Absence means unauthenticated: the token is unknown.
    fn get_authorized_user_id(&self, token: &SessionToken) -> (r: Result<Option<UserId>, RepoError>)
        requires
            self.inv(),
        ensures
            match r {
                Ok(Some(uid)) => token_lookup(self.sessions(), token@) == Some(uid@),
                Ok(None) => token_lookup(self.sessions(), token@) is None,
                Err(_) => true,
            },
    ;

    /// Issues a token guaranteed collision-free at creation time; fails
    /// rather than overwriting if collision-freedom cannot be guaranteed.
    fn create_user_session(&mut self, user_id: UserId) -> (r: Result<SessionToken, RepoError>)
        requires
            old(self).inv(),
        ensures
            final(self).inv(),
            match r {
                Ok(tok) => {
                    &&& tok.wf()
                    &&& hex_id(tok@)
                    &&& !token_exists(old(self).sessions(), tok@)
                    &&& final(self).sessions() == old(self).sessions().push(
                        SessionRecord { token: tok@, user_id: user_id@ },
                    )
                },
                Err(_) => final(self).sessions() == old(self).sessions(),
            },
    ;
}

/// User registration and lookup.
pub trait UsersRepositry: Sized {
    /// The backend's internal well-formedness.
    spec fn inv(&self) -> bool;

    /// The stored user rows.
    spec fn users(&self) -> Seq<UserRecord>;

    /// Case-sensitive exact match on the username.
    fn does_user_exist_by_username(&self, username: &str) -> (r: Result<bool, RepoError>)
        requires
            self.inv(),
        ensures
            match r {
                Ok(b) => b == name_exists(self.users(), username@),
                Err(_) => true,
            },
    ;

    /// Absence means no such user; that is not an error.
    fn get_username(&self, user_id: UserId) -> (r: Result<Option<String>, RepoError>)
        requires
            self.inv(),
        ensures
            match r {
                Ok(Some(name)) => user_by_id(self.users(), user_id@) matches Some(u)
                    && u.username == name@,
                Ok(None) => user_by_id(self.users(), user_id@) is None,
                Err(_) => true,
            },
    ;

    /// Assigns a fresh unique id and stores the new row; fails if no fresh
    /// id can be allocated or the username is already taken.
    fn create_user(&mut self, username: &str, password: &str) -> (r: Result<UserId, RepoError>)
        requires
            old(self).inv(),
        ensures
            final(self).inv(),
            match r {
                Ok(uid) => {
                    &&& !id_exists(old(self).users(), uid@)
                    &&& !name_exists(old(self).users(), username@)
                    &&& final(self).users() == old(self).users().push(
                        UserRecord { user_id: uid@, username: username@, password: password@ },
                    )
                },
                Err(_) => final(self).users() == old(self).users(),
            },
    ;

    /// The id and stored password for a username; absence means the
    /// username is not registered.
    fn find_user_with_password(&self, username: &str) -> (r: Result<
        Option<(UserId, String)>,
        RepoError,
    >)
        requires
            self.inv(),
        ensures
            match r {
                Ok(Some((uid, pw))) => user_by_name(self.users(), username@) matches Some(u)
                    && u.user_id == uid@ && u.password == pw@,
                Ok(None) => !name_exists(self.users(), username@),
                Err(_) => true,
            },
    ;
}

/// Task and category storage for one entity family.
pub trait TasksRepository: Sized {
    /// The backend's internal well-formedness.
    spec fn inv(&self) -> bool;

    /// The stored task rows.
    spec fn tasks(&self) -> Seq<TaskRecord>;

    /// The stored category rows.
    spec fn categories(&self) -> Seq<CategoryRecord>;

    /// All tasks owned by the user, in storage order.
    fn fetch_tasks(&self, user_id: UserId) -> (r: Result<Vec<TaskDescription>, RepoError>)
        requires
            self.inv(),
        ensures
            match r {
                Ok(ts) => ts@.map_values(|t: TaskDescription| t@) == tasks_of(
                    self.tasks(),
                    user_id@,
                ),
                Err(_) => true,
            },
    ;

    /// Stores a new task under a freshly generated id. The category id is
    /// not validated here; that is a view-layer concern.
    fn create_task(
        &mut self,
        user_id: UserId,
        label: &str,
        description: &str,
        category_id: &str,
    ) -> (r: Result<TaskId, RepoError>)
        requires
            old(self).inv(),
        ensures
            final(self).inv(),
            final(self).categories() == old(self).categories(),
            match r {
                Ok(tid) => {
                    &&& hex_id(tid@)
                    &&& !has_task(old(self).tasks(), user_id@, tid@)
                    &&& final(self).tasks() == old(self).tasks().push(
                        TaskRecord {
                            user_id: user_id@,
                            task: TaskView {
                                task_id: tid@,
                                label: label@,
                                description: description@,
                                category_id: category_id@,
                            },
                        },
                    )
                },
                Err(_) => final(self).tasks() == old(self).tasks(),
            },
    ;

    /// Replaces the content of the task matching (user, task id); fails
    /// with [`RepoError::NotFound`] if no task matches.
    fn modify_task(
        &mut self,
        user_id: UserId,
        task_id: &str,
        label: &str,
        description: &str,
        category_id: &str,
    ) -> (r: Result<(), RepoError>)
        requires
            old(self).inv(),
        ensures
            final(self).inv(),
            final(self).categories() == old(self).categories(),
            match r {
                Ok(_) => exists|i: int|
                    {
                        &&& 0 <= i < old(self).tasks().len()
                        &&& old(self).tasks()[i].user_id == user_id@
                        &&& old(self).tasks()[i].task.task_id == task_id@
                        &&& final(self).tasks() == old(self).tasks().update(
                            i,
                            TaskRecord {
                                user_id: user_id@,
                                task: TaskView {
                                    task_id: task_id@,
                                    label: label@,
                                    description: description@,
                                    category_id: category_id@,
                                },
                            },
                        )
                    },
                Err(e) => final(self).tasks() == old(self).tasks() && (e matches
                RepoError::NotFound ==> !has_task(old(self).tasks(), user_id@, task_id@)),
            },
    ;

    /// Removes the task matching (user, task id); fails with
    /// [`RepoError::NotFound`] if no task matches.
    fn delete_task(&mut self, user_id: UserId, task_id: &str) -> (r: Result<(), RepoError>)
        requires
            old(self).inv(),
        ensures
            final(self).inv(),
            final(self).categories() == old(self).categories(),
            match r {
                Ok(_) => exists|i: int|
                    {
                        &&& 0 <= i < old(self).tasks().len()
                        &&& old(self).tasks()[i].user_id == user_id@
                        &&& old(self).tasks()[i].task.task_id == task_id@
                        &&& final(self).tasks() == old(self).tasks().remove(i)
                    },
                Err(e) => final(self).tasks() == old(self).tasks() && (e matches
                RepoError::NotFound ==> !has_task(old(self).tasks(), user_id@, task_id@)),
            },
    ;

    /// All categories owned by the user, in storage order.
    fn fetch_categories(&self, user_id: UserId) -> (r: Result<
        Vec<TaskCategoryDescription>,
        RepoError,
    >)
        requires
            self.inv(),
        ensures
            match r {
                Ok(cs) => cs@.map_values(|c: TaskCategoryDescription| c@) == categories_of(
                    self.categories(),
                    user_id@,
                ),
                Err(_) => true,
            },
    ;

    /// Creates one category per label, atomically: either every label is
    /// stored under a fresh id, or nothing changes.
    fn add_categories(&mut self, user_id: UserId, labels: &[&str]) -> (r: Result<
        Vec<TaskCategoryDescription>,
        RepoError,
    >)
        requires
            old(self).inv(),
        ensures
            final(self).inv(),
            final(self).tasks() == old(self).tasks(),
            match r {
                Ok(descs) => {
                    &&& descs@.len() == labels@.len()
                    &&& forall|i: int|
                        0 <= i < descs@.len() ==> (#[trigger] descs@[i])@.label == labels@[i]@
                    &&& forall|i: int|
                        0 <= i < descs@.len() ==> hex_id((#[trigger] descs@[i])@.category_id)
                    &&& forall|i: int|
                        0 <= i < descs@.len() ==> !has_category(
                            old(self).categories(),
                            user_id@,
                            (#[trigger] descs@[i])@.category_id,
                        )
                    &&& forall|i: int, j: int|
                        0 <= i < j < descs@.len() ==> (#[trigger] descs@[i])@.category_id != (
                        #[trigger] descs@[j])@.category_id
                    &&& final(self).categories() == old(self).categories() + Seq::new(
                        descs@.len(),
                        |i: int| CategoryRecord { user_id: user_id@, category: descs@[i]@ },
                    )
                },
                Err(_) => final(self).categories() == old(self).categories(),
            },
    ;
}

/// After a fresh session row is appended, its token resolves to exactly the
/// user it was created for: a created session authorizes its user.
pub proof fn lemma_token_round_trip(sessions: Seq<SessionRecord>, rec: SessionRecord)
    requires
        !token_exists(sessions, rec.token),
    ensures
        token_lookup(sessions.push(rec), rec.token) == Some(rec.user_id),
    decreases sessions.len(),
{
    if sessions.len() == 0 {
        assert(sessions.push(rec)[0] == rec);
    } else {
        assert(sessions.push(rec).drop_first() =~= sessions.drop_first().push(rec));
        lemma_token_round_trip(sessions.drop_first(), rec);
    }
}

/// Appending a session row with a different token does not change how an
/// existing token resolves: later logins leave earlier sessions intact.
pub proof fn lemma_token_lookup_preserved(
    sessions: Seq<SessionRecord>,
    rec: SessionRecord,
    token: Seq<char>,
)
    requires
        token != rec.token,
    ensures
        token_lookup(sessions.push(rec), token) == token_lookup(sessions, token),
    decreases sessions.len(),
{
    if sessions.len() == 0 {
        assert(sessions.push(rec)[0] == rec);
        assert(sessions.push(rec).drop_first() =~= sessions);
    } else {
        assert(sessions.push(rec).drop_first() =~= sessions.drop_first().push(rec));
        lemma_token_lookup_preserved(sessions.drop_first(), rec, token);
    }
}

/// A session store only ever grows by appending, and a token that resolved
/// before still resolves to the same user after any such growth: issued
/// sessions stay valid throughout later activity.
pub proof fn lemma_token_lookup_prefix(
    sessions: Seq<SessionRecord>,
    extended: Seq<SessionRecord>,
    token: Seq<char>,
)
    requires
        sessions.is_prefix_of(extended),
        token_lookup(sessions, token) is Some,
    ensures
        token_lookup(extended, token) == token_lookup(sessions, token),
    decreases sessions.len(),
{
    if sessions.len() > 0 {
        assert(extended[0] == sessions[0]);
        if sessions[0].token != token {
            assert(sessions.drop_first() =~= extended.drop_first().subrange(
                0,
                sessions.len() - 1,
            ));
            lemma_token_lookup_prefix(sessions.drop_first(), extended.drop_first(), token);
        }
    }
}

/// A token that is fresh for a store already holding a row is distinct from
/// that row's token: successive issued sessions carry distinct tokens, each
/// independently resolvable.
pub proof fn lemma_fresh_tokens_distinct(
    sessions: Seq<SessionRecord>,
    rec: SessionRecord,
    token: Seq<char>,
)
    requires
        !token_exists(sessions.push(rec), token),
    ensures
        token != rec.token,
    decreases sessions.len(),
{
    if sessions.len() == 0 {
        assert(sessions.push(rec)[0] == rec);
        if token == rec.token {
            assert(token_lookup(sessions.push(rec), token) is Some);
        }
    } else {
        assert(sessions.push(rec).drop_first() =~= sessions.drop_first().push(rec));
        lemma_fresh_tokens_distinct(sessions.drop_first(), rec, token);
    }
}

/// A name just stored is present afterwards: a second registration of the
/// same username must take the duplicate-name path.
pub proof fn lemma_registered_name_exists(users: Seq<UserRecord>, rec: UserRecord)
    ensures
        name_exists(users.push(rec), rec.username),
    decreases users.len(),
{
    if users.len() > 0 && users[0].username != rec.username {
        assert(users.push(rec).drop_first() =~= users.drop_first().push(rec));
        lemma_registered_name_exists(users.drop_first(), rec);
    }
}

/// An id that is fresh for a store already holding a row is distinct from
/// that row's id: successive successful registrations yield distinct ids.
pub proof fn lemma_fresh_ids_distinct(users: Seq<UserRecord>, rec: UserRecord, id: int)
    requires
        !id_exists(users.push(rec), id),
    ensures
        id != rec.user_id,
    decreases users.len(),
{
    if users.len() == 0 {
        assert(users.push(rec)[0] == rec);
    } else {
        assert(users.push(rec).drop_first() =~= users.drop_first().push(rec));
        lemma_fresh_ids_distinct(users.drop_first(), rec, id);
    }
}

} // verus!
