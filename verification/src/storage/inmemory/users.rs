//! The in-memory users backend.

use vstd::prelude::*;

use crate::app::repositories::{
    id_exists, name_exists, user_by_id, user_by_name, users_wf, RepoError, UserRecord,
    UsersRepositry,
};
use crate::model::text::str_eq;
use crate::model::types::{UniqueId, UserId};

verus! {

struct StoredUser {
    user_id: UserId,
    username: String,
    password: String,
}

/// User storage backed by a plain vector of rows with pairwise distinct ids
/// and usernames. Ids are handed out from a strictly growing counter, so a
/// created user's id is fresh and never reused.
pub struct InMemoryUsers {
    next_id: i64,
    users: Vec<StoredUser>,
}

impl InMemoryUsers {
    pub fn new() -> (s: Self)
        ensures
            s.inv(),
            s.users() == Seq::<UserRecord>::empty(),
            s.next_user_id() == 1,
    {
        let s = Self { next_id: 1, users: Vec::new() };
        proof {
            assert(s.users() =~= Seq::<UserRecord>::empty());
        }
        s
    }

    /// The id the next created user receives. It starts at 1 and only ever
    /// grows, so an assigned id is never reused.
    pub closed spec fn next_user_id(&self) -> int {
        self.next_id as int
    }

    /// Every id already handed out lies below the allocation counter.
    closed spec fn ids_below_counter(&self) -> bool {
        forall|i: int| 0 <= i < self.users@.len() ==> self.users()[i].user_id < self.next_id as int
    }

    /// Stores a row under a caller-chosen id, for seeding test fixtures.
    /// Fails rather than break uniqueness of ids and usernames.
    pub fn add_user(&mut self, user_id: UserId, username: &str, password: &str) -> (r: Result<
        (),
        RepoError,
    >)
        requires
            old(self).inv(),
        ensures
            final(self).inv(),
            match r {
                Ok(_) => {
                    &&& !name_exists(old(self).users(), username@)
                    &&& !id_exists(old(self).users(), user_id@)
                    &&& final(self).users() == old(self).users().push(
                        UserRecord { user_id: user_id@, username: username@, password: password@ },
                    )
                    &&& final(self).next_user_id() == if user_id@ >= old(self).next_user_id() {
                        user_id@ + 1
                    } else {
                        old(self).next_user_id()
                    }
                },
                Err(RepoError::UniqueViolation) => final(self).users() == old(self).users() && (
                name_exists(old(self).users(), username@) || id_exists(
                    old(self).users(),
                    user_id@,
                )) && final(self).next_user_id() == old(self).next_user_id(),
                Err(RepoError::IdsExhausted) => final(self).users() == old(self).users()
                    && user_id@ == i64::MAX as int && !name_exists(old(self).users(), username@)
                    && !id_exists(old(self).users(), user_id@)
                    && final(self).next_user_id() == old(self).next_user_id(),
                _ => false,
            },
    {
        if self.username_taken(username) {
            proof {
                lemma_some_name_match_means_present(self.users(), username@);
            }
            return Err(RepoError::UniqueViolation);
        }
        if self.id_taken(user_id) {
            proof {
                lemma_some_id_match_means_present(self.users(), user_id@);
            }
            return Err(RepoError::UniqueViolation);
        }
        if user_id.raw() == i64::MAX {
            proof {
                lemma_no_name_match_means_absent(self.users(), username@);
                lemma_no_id_match_means_absent(self.users(), user_id@);
            }
            return Err(RepoError::IdsExhausted);
        }

        if user_id.raw() >= self.next_id {
            self.next_id = user_id.raw() + 1;
        }
        self.users.push(
            StoredUser { user_id, username: username.to_owned(), password: password.to_owned() },
        );

        proof {
            lemma_no_name_match_means_absent(old(self).users(), username@);
            lemma_no_id_match_means_absent(old(self).users(), user_id@);
            assert(self.users() =~= old(self).users().push(
                UserRecord { user_id: user_id@, username: username@, password: password@ },
            ));
        }
        Ok(())
    }

    /// Whether some stored row carries this username.
    fn username_taken(&self, username: &str) -> (r: bool)
        ensures
            r == exists|j: int|
                0 <= j < self.users().len() && (#[trigger] self.users()[j]).username == username@,
    {
        let n = self.users.len();
        let mut i: usize = 0;
        while i < n
            invariant
                i <= n,
                n == self.users@.len(),
                forall|j: int| 0 <= j < i ==> (#[trigger] self.users()[j]).username != username@,
            decreases n - i,
        {
            if str_eq(self.users[i].username.as_str(), username) {
                proof {
                    assert((self.users()[i as int]).username == username@);
                }
                return true;
            }
            proof {
                assert((self.users()[i as int]).username == self.users@[i as int].username@);
            }
            i = i + 1;
        }
        false
    }

    /// Whether some stored row carries this id.
    fn id_taken(&self, user_id: UserId) -> (r: bool)
        ensures
            r == exists|j: int|
                0 <= j < self.users().len() && (#[trigger] self.users()[j]).user_id == user_id@,
    {
        let n = self.users.len();
        let mut i: usize = 0;
        while i < n
            invariant
                i <= n,
                n == self.users@.len(),
                forall|j: int| 0 <= j < i ==> (#[trigger] self.users()[j]).user_id != user_id@,
            decreases n - i,
        {
            if self.users[i].user_id.raw() == user_id.raw() {
                proof {
                    assert((self.users()[i as int]).user_id == user_id@);
                }
                return true;
            }
            proof {
                assert((self.users()[i as int]).user_id == self.users@[i as int].user_id@);
            }
            i = i + 1;
        }
        false
    }
}

impl UsersRepositry for InMemoryUsers {
    closed spec fn users(&self) -> Seq<UserRecord> {
        Seq::new(
            self.users@.len(),
            |i: int|
                UserRecord {
                    user_id: self.users@[i].user_id@,
                    username: self.users@[i].username@,
                    password: self.users@[i].password@,
                },
        )
    }

    closed spec fn inv(&self) -> bool {
        users_wf(self.users()) && self.ids_below_counter()
    }

    /// The in-memory lookup never fails.
    fn does_user_exist_by_username(&self, username: &str) -> (r: Result<bool, RepoError>)
        ensures
            r is Ok,
    {
        let taken = self.username_taken(username);
        proof {
            if taken {
                lemma_some_name_match_means_present(self.users(), username@);
            } else {
                lemma_no_name_match_means_absent(self.users(), username@);
            }
        }
        Ok(taken)
    }

    /// The in-memory lookup never fails: an unknown id is absence, not an
    /// error.
    fn get_username(&self, user_id: UserId) -> (r: Result<Option<String>, RepoError>)
        ensures
            r is Ok,
    {
        let n = self.users.len();
        let mut i: usize = 0;
        proof {
            assert(self.users().skip(0) =~= self.users());
        }
        while i < n
            invariant
                i <= n,
                n == self.users@.len(),
                user_by_id(self.users(), user_id@) == user_by_id(
                    self.users().skip(i as int),
                    user_id@,
                ),
            decreases n - i,
        {
            proof {
                assert(self.users().skip(i as int)[0] == self.users()[i as int]);
            }
            if self.users[i].user_id.raw() == user_id.raw() {
                return Ok(Some(self.users[i].username.clone()));
            }
            proof {
                assert(self.users().skip(i as int).drop_first() =~= self.users().skip(i as int + 1));
            }
            i = i + 1;
        }
        proof {
            assert(self.users().skip(n as int) =~= Seq::<UserRecord>::empty());
        }
        Ok(None)
    }

    /// In memory, creation fails only for the two deterministic reasons:
    /// the username is taken, or the id space is exhausted. The assigned
    /// ids start at 1 and step by exactly 1 per successful creation.
    fn create_user(&mut self, username: &str, password: &str) -> (r: Result<UserId, RepoError>)
        ensures
            match r {
                Ok(uid) => uid@ == old(self).next_user_id()
                    && final(self).next_user_id() == old(self).next_user_id() + 1,
                Err(RepoError::UniqueViolation) => name_exists(old(self).users(), username@)
                    && final(self).next_user_id() == old(self).next_user_id(),
                Err(RepoError::IdsExhausted) => !name_exists(old(self).users(), username@)
                    && old(self).next_user_id() == i64::MAX as int
                    && final(self).next_user_id() == old(self).next_user_id(),
                _ => false,
            },
    {
        if self.username_taken(username) {
            proof {
                lemma_some_name_match_means_present(self.users(), username@);
            }
            return Err(RepoError::UniqueViolation);
        }
        if self.next_id == i64::MAX {
            proof {
                lemma_no_name_match_means_absent(self.users(), username@);
            }
            return Err(RepoError::IdsExhausted);
        }

        let user_id = UniqueId::from_raw(self.next_id);
        self.next_id = self.next_id + 1;
        self.users.push(
            StoredUser { user_id, username: username.to_owned(), password: password.to_owned() },
        );

        proof {
            lemma_no_name_match_means_absent(old(self).users(), username@);
            lemma_no_id_match_means_absent(old(self).users(), user_id@);
            assert(self.users() =~= old(self).users().push(
                UserRecord { user_id: user_id@, username: username@, password: password@ },
            ));
        }
        Ok(user_id)
    }

    /// The in-memory lookup never fails: an unknown username is absence,
    /// not an error.
    fn find_user_with_password(&self, username: &str) -> (r: Result<
        Option<(UserId, String)>,
        RepoError,
    >)
        ensures
            r is Ok,
    {
        let n = self.users.len();
        let mut i: usize = 0;
        proof {
            assert(self.users().skip(0) =~= self.users());
        }
        while i < n
            invariant
                i <= n,
                n == self.users@.len(),
                user_by_name(self.users(), username@) == user_by_name(
                    self.users().skip(i as int),
                    username@,
                ),
            decreases n - i,
        {
            proof {
                assert(self.users().skip(i as int)[0] == self.users()[i as int]);
            }
            if str_eq(self.users[i].username.as_str(), username) {
                return Ok(Some((self.users[i].user_id, self.users[i].password.clone())));
            }
            proof {
                assert(self.users().skip(i as int).drop_first() =~= self.users().skip(i as int + 1));
            }
            i = i + 1;
        }
        proof {
            assert(self.users().skip(n as int) =~= Seq::<UserRecord>::empty());
        }
        Ok(None)
    }
}

/// A username matched by no row is absent from the lookup.
proof fn lemma_no_name_match_means_absent(users: Seq<UserRecord>, name: Seq<char>)
    requires
        forall|j: int| 0 <= j < users.len() ==> (#[trigger] users[j]).username != name,
    ensures
        !name_exists(users, name),
    decreases users.len(),
{
    if users.len() > 0 {
        assert(forall|j: int|
            0 <= j < users.drop_first().len() ==> #[trigger] users.drop_first()[j] == users[j + 1]);
        lemma_no_name_match_means_absent(users.drop_first(), name);
    }
}

/// A username matched by some row is present in the lookup.
proof fn lemma_some_name_match_means_present(users: Seq<UserRecord>, name: Seq<char>)
    requires
        exists|j: int| 0 <= j < users.len() && (#[trigger] users[j]).username == name,
    ensures
        name_exists(users, name),
    decreases users.len(),
{
    if users.len() > 0 && users[0].username != name {
        let j = choose|j: int| 0 <= j < users.len() && (#[trigger] users[j]).username == name;
        assert(users.drop_first()[j - 1] == users[j]);
        lemma_some_name_match_means_present(users.drop_first(), name);
    }
}

/// An id matched by some row is present in the lookup.
proof fn lemma_some_id_match_means_present(users: Seq<UserRecord>, id: int)
    requires
        exists|j: int| 0 <= j < users.len() && (#[trigger] users[j]).user_id == id,
    ensures
        id_exists(users, id),
    decreases users.len(),
{
    if users.len() > 0 && users[0].user_id != id {
        let j = choose|j: int| 0 <= j < users.len() && (#[trigger] users[j]).user_id == id;
        assert(users.drop_first()[j - 1] == users[j]);
        lemma_some_id_match_means_present(users.drop_first(), id);
    }
}

/// An id matched by no row is absent from the lookup.
proof fn lemma_no_id_match_means_absent(users: Seq<UserRecord>, id: int)
    requires
        forall|j: int| 0 <= j < users.len() ==> (#[trigger] users[j]).user_id != id,
    ensures
        !id_exists(users, id),
    decreases users.len(),
{
    if users.len() > 0 {
        assert(forall|j: int|
            0 <= j < users.drop_first().len() ==> #[trigger] users.drop_first()[j] == users[j + 1]);
        lemma_no_id_match_means_absent(users.drop_first(), id);
    }
}

} // verus!
