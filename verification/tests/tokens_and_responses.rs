use taskboard::api::{get_user_response, login_response, register_response, AuthorizedUser};
use taskboard::app::auth::{CreateUserError, LoginError};
use taskboard::model::sessions::SessionToken;
use taskboard::model::types::UniqueId;
use taskboard::response::Response;

#[test]
fn generated_token_is_32_lower_hex_chars() {
    let token = SessionToken::generate_random();
    let s = token.as_str();
    assert_eq!(s.len(), 32);
    assert!(s.chars().all(|c| c.is_ascii_hexdigit() && !c.is_uppercase()));
}

#[test]
fn token_parsing_accepts_exactly_32_chars() {
    let ok = "0123456789abcdef0123456789abcdef";
    let parsed = SessionToken::from_str(ok).unwrap();
    assert_eq!(parsed.as_str(), ok);

    assert!(SessionToken::from_str("").is_none());
    assert!(SessionToken::from_str("0123456789abcdef").is_none());
    assert!(SessionToken::from_str("0123456789abcdef0123456789abcdef0").is_none());
}

#[test]
fn parsed_token_round_trips_through_as_str() {
    let original = SessionToken::generate_random();
    let reparsed = SessionToken::from_str(original.as_str()).unwrap();
    assert_eq!(reparsed.as_str(), original.as_str());
}

#[test]
fn login_error_codes() {
    assert_eq!(LoginError::UserNotFound.error_code(), "user_not_found");
    assert_eq!(
        LoginError::IncorrectPassword.error_code(),
        "incorrect_password"
    );
}

#[test]
fn create_user_error_codes() {
    assert_eq!(
        CreateUserError::InvalidUsername.error_code(),
        "invalid_username"
    );
    assert_eq!(
        CreateUserError::InvalidPassword.error_code(),
        "invalid_password"
    );
    assert_eq!(
        CreateUserError::UserAlreadyExists.error_code(),
        "user_already_exists"
    );
}

#[test]
fn response_from_error_carries_code_and_no_data() {
    let r: Response<u32> = Response::from_error("user_not_found");
    match r {
        Response::Success(body) => {
            assert_eq!(body.error_code, "user_not_found");
            assert!(body.data.is_none());
        }
        other => panic!("unexpected response: {:?}", other),
    }
}

#[test]
fn login_response_tags() {
    let ok = login_response(
        "user123",
        &Ok((UniqueId::from_raw(1), SessionToken::generate_random())),
    );
    match ok {
        Response::Success(body) => {
            assert_eq!(body.error_code, "");
            assert_eq!(body.data.unwrap().username, "user123");
        }
        other => panic!("unexpected response: {:?}", other),
    }

    let err = login_response("user123", &Err(LoginError::IncorrectPassword));
    match err {
        Response::Success(body) => {
            assert_eq!(body.error_code, "incorrect_password");
            assert!(body.data.is_none());
        }
        other => panic!("unexpected response: {:?}", other),
    }
}

#[test]
fn register_response_tags() {
    let err = register_response("user123", &Err(CreateUserError::UserAlreadyExists));
    match err {
        Response::Success(body) => {
            assert_eq!(body.error_code, "user_already_exists");
            assert!(body.data.is_none());
        }
        other => panic!("unexpected response: {:?}", other),
    }
}

#[test]
fn get_user_response_shapes() {
    let ok = get_user_response(Some("user123".to_string()));
    match ok {
        Response::Success(body) => {
            assert_eq!(body.error_code, "");
            assert_eq!(body.data.unwrap().username, "user123");
        }
        other => panic!("unexpected response: {:?}", other),
    }

    assert!(matches!(
        get_user_response(None),
        Response::ServerError
    ));
}

#[test]
fn authorized_user_requires_resolved_session() {
    let token = SessionToken::generate_random();
    let authorized =
        AuthorizedUser::from_session_lookup(Some(UniqueId::from_raw(9)), token).unwrap();
    assert_eq!(authorized.user_id.raw(), 9);

    let token = SessionToken::generate_random();
    assert!(AuthorizedUser::from_session_lookup(None, token).is_none());
}

#[test]
fn response_from_data_carries_payload() {
    let r: Response<u32> = Response::from_data(17);
    match r {
        Response::Success(body) => {
            assert_eq!(body.error_code, "");
            assert_eq!(body.data, Some(17));
        }
        other => panic!("unexpected response: {:?}", other),
    }
}
