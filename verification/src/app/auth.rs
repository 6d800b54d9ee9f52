//! The authentication service: credential validation, registration, login,
//! and session lookup.

use vstd::prelude::*;
use vstd::string::StrSliceExecFns;

use crate::app::repositories::{
    id_exists, name_exists, token_exists, token_lookup, user_by_id, user_by_name, CategoryRecord, RepoError,
    SessionRecord, SessionsRepository, TaskRecord, TasksRepository, UserRecord, UsersRepositry,
};
use crate::model::random::hex_id;
use crate::model::sessions::SessionToken;
use crate::model::text::str_eq;
use crate::model::types::UserId;

verus! {

/// Whether a character has the Unicode `Alphabetic` property.
pub uninterp spec fn unicode_alphabetic(c: char) -> bool;

/// Whether a character has the Unicode `Lowercase` property.
pub uninterp spec fn unicode_lowercase(c: char) -> bool;

/// Whether a character has the Unicode `Uppercase` property.
pub uninterp spec fn unicode_uppercase(c: char) -> bool;

/// Relies on char::is_alphabetic: true exactly for characters with the
/// Unicode `Alphabetic` property; the result depends on the character alone.
#[verifier::external_body]
fn is_alphabetic_char(c: char) -> (r: bool)
    ensures
        r == unicode_alphabetic(c),
{
    c.is_alphabetic()
}

/// Relies on char::is_lowercase: true exactly for characters with the
/// Unicode `Lowercase` property; the result depends on the character alone.
#[verifier::external_body]
fn is_lowercase_char(c: char) -> (r: bool)
    ensures
        r == unicode_lowercase(c),
{
    c.is_lowercase()
}

/// Relies on char::is_uppercase: true exactly for characters with the
/// Unicode `Uppercase` property; the result depends on the character alone.
#[verifier::external_body]
fn is_uppercase_char(c: char) -> (r: bool)
    ensures
        r == unicode_uppercase(c),
{
    c.is_uppercase()
}

/// Whether a character is an ASCII decimal digit.
pub open spec fn ascii_digit(c: char) -> bool {
    48 <= c as u32 && c as u32 <= 57
}

fn is_ascii_digit_char(c: char) -> (r: bool)
    ensures
        r == ascii_digit(c),
{
    let u = c as u32;
    u >= 48 && u <= 57
}

/// Whether a character is one of the three password special characters.
pub open spec fn special_char(c: char) -> bool {
    c == '$' || c == '@' || c == '!'
}

fn is_special_char(c: char) -> (r: bool)
    ensures
        r == special_char(c),
{
    c == '$' || c == '@' || c == '!'
}

/// The number of bytes a character occupies in UTF-8.
pub open spec fn utf8_width(c: char) -> int {
    if (c as u32) < 0x80 {
        1
    } else if (c as u32) < 0x800 {
        2
    } else if (c as u32) < 0x10000 {
        3
    } else {
        4
    }
}

/// The UTF-8 byte length of a character sequence. Both validation rules
/// measure length in bytes of the UTF-8 encoding.
pub open spec fn utf8_width_sum(s: Seq<char>) -> int
    decreases s.len(),
{
    if s.len() == 0 {
        0
    } else {
        utf8_width_sum(s.drop_last()) + utf8_width(s.last())
    }
}

fn utf8_width_of(c: char) -> (w: u8)
    ensures
        w as int == utf8_width(c),
{
    let u = c as u32;
    if u < 0x80 {
        1
    } else if u < 0x800 {
        2
    } else if u < 0x10000 {
        3
    } else {
        4
    }
}

/// Whether a character may appear in a username: a Unicode letter, an ASCII
/// digit, or an underscore.
pub open spec fn username_char_ok(c: char) -> bool {
    unicode_alphabetic(c) || ascii_digit(c) || c == '_'
}

/// A valid username is at least 6 bytes long and consists of letters, ASCII
/// digits and underscores only. There is no upper bound on the length.
pub open spec fn valid_username(s: Seq<char>) -> bool {
    &&& utf8_width_sum(s) >= 6
    &&& forall|i: int| 0 <= i < s.len() ==> username_char_ok(#[trigger] s[i])
}

/// Whether a character may appear in a password: a Unicode letter, an ASCII
/// digit, or one of `$`, `@`, `!`.
pub open spec fn password_char_ok(c: char) -> bool {
    unicode_alphabetic(c) || ascii_digit(c) || special_char(c)
}

/// A valid password is at least 8 bytes long, consists of allowed
/// characters only, and contains at least one lowercase character, one
/// uppercase character, one ASCII digit and one special character.
pub open spec fn valid_password(s: Seq<char>) -> bool {
    &&& utf8_width_sum(s) >= 8
    &&& forall|i: int| 0 <= i < s.len() ==> password_char_ok(#[trigger] s[i])
    &&& exists|i: int| 0 <= i < s.len() && unicode_lowercase(#[trigger] s[i])
    &&& exists|i: int| 0 <= i < s.len() && unicode_uppercase(#[trigger] s[i])
    &&& exists|i: int| 0 <= i < s.len() && ascii_digit(#[trigger] s[i])
    &&& exists|i: int| 0 <= i < s.len() && special_char(#[trigger] s[i])
}

fn is_username_char(c: char) -> (r: bool)
    ensures
        r == username_char_ok(c),
{
    is_alphabetic_char(c) || is_ascii_digit_char(c) || c == '_'
}

fn is_password_char(c: char) -> (r: bool)
    ensures
        r == password_char_ok(c),
{
    is_alphabetic_char(c) || is_ascii_digit_char(c) || is_special_char(c)
}

/// Validates a username: accepts exactly the strings satisfying
/// [`valid_username`].
pub fn validate_username(username: &str) -> (r: bool)
    ensures
        r == valid_username(username@),
{
    let n = username.unicode_len();
    let mut i: usize = 0;
    let mut width: u128 = 0;
    let mut chars_ok = true;
    proof {
        assert(username@.take(0) =~= Seq::<char>::empty());
    }
    while i < n
        invariant
            i <= n,
            n == username@.len(),
            width == utf8_width_sum(username@.take(i as int)),
            width as int <= 4 * (i as int),
            chars_ok == (forall|j: int| 0 <= j < i ==> username_char_ok(#[trigger] username@[j])),
        decreases n - i,
    {
        let c = username.get_char(i);
        let w = utf8_width_of(c);
        proof {
            assert(username@.take(i as int + 1).drop_last() =~= username@.take(i as int));
            assert(username@.take(i as int + 1).last() == username@[i as int]);
        }
        width = width + (w as u128);
        if !is_username_char(c) {
            chars_ok = false;
        }
        i = i + 1;
    }
    proof {
        assert(username@.take(n as int) =~= username@);
    }
    width >= 6 && chars_ok
}

/// Validates a password: accepts exactly the strings satisfying
/// [`valid_password`].
pub fn validate_password(password: &str) -> (r: bool)
    ensures
        r == valid_password(password@),
{
    let n = password.unicode_len();
    let mut i: usize = 0;
    let mut width: u128 = 0;
    let mut chars_ok = true;
    let mut has_lower = false;
    let mut has_upper = false;
    let mut has_digit = false;
    let mut has_special = false;
    proof {
        assert(password@.take(0) =~= Seq::<char>::empty());
    }
    while i < n
        invariant
            i <= n,
            n == password@.len(),
            width == utf8_width_sum(password@.take(i as int)),
            width as int <= 4 * (i as int),
            chars_ok == (forall|j: int| 0 <= j < i ==> password_char_ok(#[trigger] password@[j])),
            has_lower == (exists|j: int| 0 <= j < i && unicode_lowercase(#[trigger] password@[j])),
            has_upper == (exists|j: int| 0 <= j < i && unicode_uppercase(#[trigger] password@[j])),
            has_digit == (exists|j: int| 0 <= j < i && ascii_digit(#[trigger] password@[j])),
            has_special == (exists|j: int| 0 <= j < i && special_char(#[trigger] password@[j])),
        decreases n - i,
    {
        let c = password.get_char(i);
        let w = utf8_width_of(c);
        proof {
            assert(password@.take(i as int + 1).drop_last() =~= password@.take(i as int));
            assert(password@.take(i as int + 1).last() == password@[i as int]);
        }
        width = width + (w as u128);
        if !is_password_char(c) {
            chars_ok = false;
        }
        if is_lowercase_char(c) {
            has_lower = true;
        }
        if is_uppercase_char(c) {
            has_upper = true;
        }
        if is_ascii_digit_char(c) {
            has_digit = true;
        }
        if is_special_char(c) {
            has_special = true;
        }
        i = i + 1;
    }
    proof {
        assert(password@.take(n as int) =~= password@);
    }
    width >= 8 && chars_ok && has_lower && has_upper && has_digit && has_special
}

/// Why a login attempt was rejected.
#[derive(Debug)]
pub enum LoginError {
    UserNotFound,
    IncorrectPassword,
}

impl LoginError {
    /// The string tag exposed at the transport boundary.
    pub fn error_code(&self) -> (r: &'static str)
        ensures
            r@ == match *self {
                LoginError::UserNotFound => "user_not_found"@,
                LoginError::IncorrectPassword => "incorrect_password"@,
            },
    {
        match self {
            LoginError::UserNotFound => "user_not_found",
            LoginError::IncorrectPassword => "incorrect_password",
        }
    }
}

/// Why a registration attempt was rejected.
#[derive(Debug)]
pub enum CreateUserError {
    InvalidUsername,
    InvalidPassword,
    UserAlreadyExists,
}

impl CreateUserError {
    /// The string tag exposed at the transport boundary.
    pub fn error_code(&self) -> (r: &'static str)
        ensures
            r@ == match *self {
                CreateUserError::InvalidUsername => "invalid_username"@,
                CreateUserError::InvalidPassword => "invalid_password"@,
                CreateUserError::UserAlreadyExists => "user_already_exists"@,
            },
    {
        match self {
            CreateUserError::InvalidUsername => "invalid_username",
            CreateUserError::InvalidPassword => "invalid_password",
            CreateUserError::UserAlreadyExists => "user_already_exists",
        }
    }
}

/// The labels of the three categories seeded for every new user.
pub open spec fn default_category_labels() -> Seq<Seq<char>> {
    seq!["ToDo"@, "In progress"@, "Completed"@]
}

/// The category store after registration: the old rows unchanged, followed
/// by one row per default label, owned by the new user.
pub open spec fn default_categories_added(
    old_cats: Seq<CategoryRecord>,
    new_cats: Seq<CategoryRecord>,
    uid: int,
) -> bool {
    &&& new_cats.len() == old_cats.len() + default_category_labels().len()
    &&& forall|i: int| 0 <= i < old_cats.len() ==> new_cats[i] == old_cats[i]
    &&& forall|i: int|
        old_cats.len() <= i < new_cats.len() ==> (#[trigger] new_cats[i]).user_id == uid
            && new_cats[i].category.label == default_category_labels()[i - old_cats.len()]
}

/// Credential validation, registration with its post-registration category
/// seeding, login, and session lookup, over any repository backend.
pub struct AuthService<S, U, T> {
    sessions: S,
    users: U,
    tasks: T,
}

impl<S: SessionsRepository, U: UsersRepositry, T: TasksRepository> AuthService<S, U, T> {
    /// All three repositories are well-formed.
    pub closed spec fn inv(&self) -> bool {
        self.sessions.inv() && self.users.inv() && self.tasks.inv()
    }

    /// The stored session rows.
    pub closed spec fn sessions_view(&self) -> Seq<SessionRecord> {
        self.sessions.sessions()
    }

    /// The stored user rows.
    pub closed spec fn users_view(&self) -> Seq<UserRecord> {
        self.users.users()
    }

    /// The stored task rows.
    pub closed spec fn tasks_view(&self) -> Seq<TaskRecord> {
        self.tasks.tasks()
    }

    /// The stored category rows.
    pub closed spec fn categories_view(&self) -> Seq<CategoryRecord> {
        self.tasks.categories()
    }

    /// Builds the service over explicitly injected repositories; the tasks
    /// repository is what registration seeds default categories into.
    pub fn new(sessions: S, users: U, tasks: T) -> (s: Self)
        requires
            sessions.inv(),
            users.inv(),
            tasks.inv(),
        ensures
            s.inv(),
            s.sessions_view() == sessions.sessions(),
            s.users_view() == users.users(),
            s.tasks_view() == tasks.tasks(),
            s.categories_view() == tasks.categories(),
    {
        Self { sessions, users, tasks }
    }

    /// Resolves a session token; absence means the token authorizes nobody.
    pub fn get_authorized_user_id(&self, token: &SessionToken) -> (r: Result<
        Option<UserId>,
        RepoError,
    >)
        requires
            self.inv(),
        ensures
            match r {
                Ok(Some(uid)) => token_lookup(self.sessions_view(), token@) == Some(uid@),
                Ok(None) => token_lookup(self.sessions_view(), token@) is None,
                Err(_) => true,
            },
    {
        self.sessions.get_authorized_user_id(token)
    }

    /// Looks a username up by user id; absence means no such user.
    pub fn get_username(&self, user_id: UserId) -> (r: Result<Option<String>, RepoError>)
        requires
            self.inv(),
        ensures
            match r {
                Ok(Some(name)) => user_by_id(self.users_view(), user_id@) matches Some(u)
                    && u.username == name@,
                Ok(None) => user_by_id(self.users_view(), user_id@) is None,
                Err(_) => true,
            },
    {
        self.users.get_username(user_id)
    }

    /// Creates a new user. The checks run in a fixed order: username
    /// format, password format, existing-username, creation. On success a
    /// session is issued and the three default categories are seeded for
    /// the new user; a storage failure anywhere is propagated.
    pub fn create_user(&mut self, username: &str, password: &str) -> (r: Result<
        Result<(UserId, SessionToken), CreateUserError>,
        RepoError,
    >)
        requires
            old(self).inv(),
        ensures
            final(self).inv(),
            final(self).tasks_view() == old(self).tasks_view(),
            match r {
                Ok(Ok((user_id, token))) => {
                    &&& valid_username(username@)
                    &&& valid_password(password@)
                    &&& !name_exists(old(self).users_view(), username@)
                    &&& !id_exists(old(self).users_view(), user_id@)
                    &&& final(self).users_view() == old(self).users_view().push(
                        UserRecord { user_id: user_id@, username: username@, password: password@ },
                    )
                    &&& token.wf()
                    &&& hex_id(token@)
                    &&& !token_exists(old(self).sessions_view(), token@)
                    &&& final(self).sessions_view() == old(self).sessions_view().push(
                        SessionRecord { token: token@, user_id: user_id@ },
                    )
                    &&& default_categories_added(
                        old(self).categories_view(),
                        final(self).categories_view(),
                        user_id@,
                    )
                },
                Ok(Err(CreateUserError::InvalidUsername)) => !valid_username(username@)
                    && final(self).users_view() == old(self).users_view() && final(self).sessions_view() == old(self).sessions_view() && final(self).categories_view()
                    == old(self).categories_view(),
                Ok(Err(CreateUserError::InvalidPassword)) => valid_username(username@)
                    && !valid_password(password@) && final(self).users_view() == old(self).users_view() && final(self).sessions_view() == old(self).sessions_view()
                    && final(self).categories_view() == old(self).categories_view(),
                Ok(Err(CreateUserError::UserAlreadyExists)) => valid_username(username@)
                    && valid_password(password@) && name_exists(
                    old(self).users_view(),
                    username@,
                ) && final(self).users_view() == old(self).users_view() && final(self).sessions_view() == old(self).sessions_view() && final(self).categories_view()
                    == old(self).categories_view(),
                Err(_) => {
                    &&& valid_username(username@)
                    &&& valid_password(password@)
                    &&& (final(self).users_view() == old(self).users_view() || (!name_exists(
                        old(self).users_view(),
                        username@,
                    ) && exists|uid: int|
                        !id_exists(old(self).users_view(), uid) && final(self).users_view()
                            == old(self).users_view().push(
                            UserRecord { user_id: uid, username: username@, password: password@ },
                        )))
                    &&& old(self).sessions_view().is_prefix_of(final(self).sessions_view())
                },
            },
    {
        // Validate the username.
        if !validate_username(username) {
            return Ok(Err(CreateUserError::InvalidUsername));
        }

        // Validate the password.
        if !validate_password(password) {
            return Ok(Err(CreateUserError::InvalidPassword));
        }

        // Check if a user with this username already exists.
        match self.users.does_user_exist_by_username(username) {
            Err(e) => {
                proof {
                    lemma_sessions_prefix_reflexive(self.sessions_view());
                }
                return Err(e);
            },
            Ok(true) => {
                return Ok(Err(CreateUserError::UserAlreadyExists));
            },
            Ok(false) => {},
        }

        // Create the user.
        let user_id = match self.users.create_user(username, password) {
            Err(e) => {
                proof {
                    lemma_sessions_prefix_reflexive(self.sessions_view());
                }
                return Err(e);
            },
            Ok(uid) => uid,
        };

        // Create a session token for the user.
        let token = match self.sessions.create_user_session(user_id) {
            Err(e) => {
                proof {
                    lemma_sessions_prefix_reflexive(self.sessions_view());
                }
                return Err(e);
            },
            Ok(t) => t,
        };

        // Seed the default categories for the new user.
        let mut labels: Vec<&str> = Vec::new();
        labels.push("ToDo");
        labels.push("In progress");
        labels.push("Completed");
        match self.tasks.add_categories(user_id, labels.as_slice()) {
            Err(e) => {
                proof {
                    lemma_sessions_prefix_push(
                        old(self).sessions_view(),
                        SessionRecord { token: token@, user_id: user_id@ },
                    );
                }
                return Err(e);
            },
            Ok(_) => {},
        }

        Ok(Ok((user_id, token)))
    }

    /// Logs a user in: unknown usernames yield `UserNotFound`; a known
    /// username with any other password yields `IncorrectPassword`; on a
    /// byte-for-byte password match a fresh, independent session is issued.
    pub fn login_user(&mut self, username: &str, password: &str) -> (r: Result<
        Result<(UserId, SessionToken), LoginError>,
        RepoError,
    >)
        requires
            old(self).inv(),
        ensures
            final(self).inv(),
            final(self).users_view() == old(self).users_view(),
            final(self).tasks_view() == old(self).tasks_view(),
            final(self).categories_view() == old(self).categories_view(),
            match r {
                Ok(Ok((user_id, token))) => {
                    &&& user_by_name(old(self).users_view(), username@) matches Some(u)
                        && u.user_id == user_id@ && u.password == password@
                    &&& token.wf()
                    &&& hex_id(token@)
                    &&& !token_exists(old(self).sessions_view(), token@)
                    &&& final(self).sessions_view() == old(self).sessions_view().push(
                        SessionRecord { token: token@, user_id: user_id@ },
                    )
                },
                Ok(Err(LoginError::UserNotFound)) => !name_exists(
                    old(self).users_view(),
                    username@,
                ) && final(self).sessions_view() == old(self).sessions_view(),
                Ok(Err(LoginError::IncorrectPassword)) => (user_by_name(
                    old(self).users_view(),
                    username@,
                ) matches Some(u)
                    && u.password != password@) && final(self).sessions_view() == old(self).sessions_view(),
                Err(_) => final(self).sessions_view() == old(self).sessions_view(),
            },
    {
        // Find the user by username.
        let found = match self.users.find_user_with_password(username) {
            Err(e) => {
                return Err(e);
            },
            Ok(f) => f,
        };
        let Some((user_id, actual_password)) = found else {
            return Ok(Err(LoginError::UserNotFound));
        };

        // Check if the passwords match, byte for byte.
        if !str_eq(actual_password.as_str(), password) {
            return Ok(Err(LoginError::IncorrectPassword));
        }

        // Create a session token for the user.
        let token = match self.sessions.create_user_session(user_id) {
            Err(e) => {
                return Err(e);
            },
            Ok(t) => t,
        };

        Ok(Ok((user_id, token)))
    }
}

/// Every session store is a prefix of itself.
proof fn lemma_sessions_prefix_reflexive(sessions: Seq<SessionRecord>)
    ensures
        sessions.is_prefix_of(sessions),
{
    assert(sessions =~= sessions.subrange(0, sessions.len() as int));
}

/// Appending a session row extends the store: the old rows stay a prefix.
proof fn lemma_sessions_prefix_push(sessions: Seq<SessionRecord>, rec: SessionRecord)
    ensures
        sessions.is_prefix_of(sessions.push(rec)),
{
    assert(sessions =~= sessions.push(rec).subrange(0, sessions.len() as int));
}

} // verus!
