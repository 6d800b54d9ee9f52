//! The in-memory sessions backend.

use vstd::prelude::*;

use crate::app::repositories::{
    token_exists, token_lookup, sessions_wf, RepoError, SessionRecord, SessionsRepository,
};
use crate::model::sessions::SessionToken;
use crate::model::text::str_eq;
use crate::model::types::UserId;

verus! {

struct StoredSession {
    token: String,
    user_id: UserId,
}

/// Session storage backed by a plain vector of rows with pairwise distinct
/// tokens.
pub struct InMemorySessions {
    sessions: Vec<StoredSession>,
}

impl InMemorySessions {
    pub fn new() -> (s: Self)
        ensures
            s.inv(),
            s.sessions() == Seq::<SessionRecord>::empty(),
    {
        let s = Self { sessions: Vec::new() };
        proof {
            assert(s.sessions() =~= Seq::<SessionRecord>::empty());
        }
        s
    }
}

impl SessionsRepository for InMemorySessions {
    closed spec fn sessions(&self) -> Seq<SessionRecord> {
        Seq::new(
            self.sessions@.len(),
            |i: int|
                SessionRecord {
                    token: self.sessions@[i].token@,
                    user_id: self.sessions@[i].user_id@,
                },
        )
    }

    open spec fn inv(&self) -> bool {
        sessions_wf(self.sessions())
    }

    /// The in-memory lookup never fails: an unknown token is absence, not
    /// an error.
    fn get_authorized_user_id(&self, token: &SessionToken) -> (r: Result<
        Option<UserId>,
        RepoError,
    >)
        ensures
            r is Ok,
    {
        let n = self.sessions.len();
        let mut i: usize = 0;
        proof {
            assert(self.sessions().skip(0) =~= self.sessions());
        }
        while i < n
            invariant
                i <= n,
                n == self.sessions@.len(),
                token_lookup(self.sessions(), token@) == token_lookup(
                    self.sessions().skip(i as int),
                    token@,
                ),
            decreases n - i,
        {
            if str_eq(self.sessions[i].token.as_str(), token.as_str()) {
                proof {
                    assert(self.sessions().skip(i as int)[0] == self.sessions()[i as int]);
                }
                return Ok(Some(self.sessions[i].user_id));
            }
            proof {
                assert(self.sessions().skip(i as int)[0] == self.sessions()[i as int]);
                assert(self.sessions().skip(i as int).drop_first() =~= self.sessions().skip(
                    i as int + 1,
                ));
            }
            i = i + 1;
        }
        proof {
            assert(self.sessions().skip(n as int) =~= Seq::<SessionRecord>::empty());
        }
        Ok(None)
    }

    /// In memory, issuance fails only when the freshly drawn token
    /// collides with a stored one.
    fn create_user_session(&mut self, user_id: UserId) -> (r: Result<SessionToken, RepoError>)
        ensures
            r matches Err(e) ==> e matches RepoError::IdCollision,
    {
        let tok = SessionToken::generate_random();

        let n = self.sessions.len();
        let mut i: usize = 0;
        while i < n
            invariant
                i <= n,
                n == self.sessions@.len(),
                *self == *old(self),
                self.inv(),
                forall|j: int| 0 <= j < i ==> self.sessions()[j].token != tok@,
            decreases n - i,
        {
            if str_eq(self.sessions[i].token.as_str(), tok.as_str()) {
                return Err(RepoError::IdCollision);
            }
            proof {
                assert(self.sessions()[i as int].token == self.sessions@[i as int].token@);
            }
            i = i + 1;
        }

        proof {
            lemma_no_token_match_means_absent(self.sessions(), tok@);
        }

        self.sessions.push(StoredSession { token: tok.as_str().to_owned(), user_id });

        proof {
            assert(self.sessions() =~= old(self).sessions().push(
                SessionRecord { token: tok@, user_id: user_id@ },
            ));
        }

        Ok(tok)
    }
}

/// A token matched by no row is absent from the lookup.
proof fn lemma_no_token_match_means_absent(sessions: Seq<SessionRecord>, token: Seq<char>)
    requires
        forall|j: int| 0 <= j < sessions.len() ==> sessions[j].token != token,
    ensures
        !token_exists(sessions, token),
    decreases sessions.len(),
{
    if sessions.len() > 0 {
        assert(forall|j: int|
            0 <= j < sessions.drop_first().len() ==> sessions.drop_first()[j] == sessions[j + 1]);
        lemma_no_token_match_means_absent(sessions.drop_first(), token);
    }
}

} // verus!
