//! The computable part of the request boundary: the parameter and response
//! shapes, and the mapping from service outcomes to responses. The
//! transport itself (cookies, wire format) stays outside the library.

use vstd::prelude::*;

use crate::app::auth::{CreateUserError, LoginError};
use crate::model::sessions::SessionToken;
use crate::model::types::UserId;
use crate::response::Response;

verus! {

/// The credentials of a login or registration request.
#[derive(Debug)]
pub struct LoginParams {
    pub username: String,
    pub password: String,
}

/// The payload of a successful login, registration or user lookup.
#[derive(Debug)]
pub struct UserResponse {
    pub username: String,
}

/// A caller whose session token resolved to a user.
#[derive(Debug)]
pub struct AuthorizedUser {
    pub user_id: UserId,
    pub session_token: SessionToken,
}

impl AuthorizedUser {
    /// The request-guard decision: a caller is authorized exactly when the
    /// session lookup resolved their token to a user.
    pub fn from_session_lookup(user_id: Option<UserId>, session_token: SessionToken) -> (r:
        Option<AuthorizedUser>)
        ensures
            match r {
                Some(authorized) => user_id == Some(authorized.user_id)
                    && authorized.session_token@ == session_token@,
                None => user_id is None,
            },
    {
        let user_id = user_id?;
        Some(AuthorizedUser { user_id, session_token })
    }
}

/// The response to a login attempt: the username on success, else the
/// error's string tag; a token is issued separately to the cookie store.
pub fn login_response(
    username: &str,
    outcome: &Result<(UserId, SessionToken), LoginError>,
) -> (r: Response<UserResponse>)
    ensures
        r matches Response::Success(b),
        match outcome {
            Ok(_) => {
                &&& r matches Response::Success(b)
                &&& b.error_code@ == ""@
                &&& b.data matches Some(u) && u.username@ == username@
            },
            Err(e) => {
                &&& r matches Response::Success(b)
                &&& b.error_code@ == match *e {
                    LoginError::UserNotFound => "user_not_found"@,
                    LoginError::IncorrectPassword => "incorrect_password"@,
                }
                &&& b.data is None
            },
        },
{
    match outcome {
        Ok(_) => Response::from_data(UserResponse { username: username.to_owned() }),
        Err(e) => Response::from_error(e.error_code()),
    }
}

/// The response to a registration attempt, shaped like the login response.
pub fn register_response(
    username: &str,
    outcome: &Result<(UserId, SessionToken), CreateUserError>,
) -> (r: Response<UserResponse>)
    ensures
        r matches Response::Success(b),
        match outcome {
            Ok(_) => {
                &&& r matches Response::Success(b)
                &&& b.error_code@ == ""@
                &&& b.data matches Some(u) && u.username@ == username@
            },
            Err(e) => {
                &&& r matches Response::Success(b)
                &&& b.error_code@ == match *e {
                    CreateUserError::InvalidUsername => "invalid_username"@,
                    CreateUserError::InvalidPassword => "invalid_password"@,
                    CreateUserError::UserAlreadyExists => "user_already_exists"@,
                }
                &&& b.data is None
            },
        },
{
    match outcome {
        Ok(_) => Response::from_data(UserResponse { username: username.to_owned() }),
        Err(e) => Response::from_error(e.error_code()),
    }
}

/// The response to a user lookup: the username when the user exists, an
/// opaque server error when the authorized id resolves to no user.
pub fn get_user_response(username: Option<String>) -> (r: Response<UserResponse>)
    ensures
        match username {
            Some(name) => {
                &&& r matches Response::Success(b)
                &&& b.error_code@ == ""@
                &&& b.data matches Some(u) && u.username@ == name@
            },
            None => r is ServerError,
        },
{
    match username {
        Some(name) => Response::from_data(UserResponse { username: name }),
        None => Response::ServerError,
    }
}

} // verus!
