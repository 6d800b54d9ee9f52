use taskboard::app::auth::{AuthService, CreateUserError, LoginError};
use taskboard::app::repositories::UsersRepositry;
use taskboard::model::sessions::SessionToken;
use taskboard::model::types::{UniqueId, UserId};
use taskboard::storage::inmemory::{
    create_inmemory_repositories, InMemorySessions, InMemoryTasks, InMemoryUsers,
};

type InMemoryAuthService = AuthService<InMemorySessions, InMemoryUsers, InMemoryTasks>;

const USERNAME: &str = "user123";
const USER_PASSWORD: &str = "Abc123456@";

fn user_id_one() -> UserId {
    UniqueId::from_raw(1)
}

fn setup_inmemory_auth_service() -> InMemoryAuthService {
    let repos = create_inmemory_repositories();
    AuthService::new(repos.sessions, repos.users, repos.tasks)
}

fn setup_inmemory_auth_service_with_user() -> InMemoryAuthService {
    let repos = create_inmemory_repositories();
    let mut users = repos.users;

    users
        .add_user(user_id_one(), USERNAME, USER_PASSWORD)
        .unwrap();

    AuthService::new(repos.sessions, users, repos.tasks)
}

#[test]
fn login_user_not_found() {
    let mut auth = setup_inmemory_auth_service();

    let result = auth.login_user(USERNAME, USER_PASSWORD).unwrap();

    assert!(
        matches!(result, Err(LoginError::UserNotFound)),
        "login succeeded although there is no such user: {:?}",
        result
    );
}

#[test]
fn login_incorrect_password() {
    let mut auth = setup_inmemory_auth_service_with_user();

    let incorrect_passwords = [
        format!("{}a", USER_PASSWORD),                              // add character
        format!("a{}", USER_PASSWORD),                              // add character
        USER_PASSWORD[..USER_PASSWORD.len() - 1].to_string(),     // remove last character
        "".to_string(),
        "#".to_string(),
        "\0".to_string(),
    ];

    for password in incorrect_passwords.iter() {
        let result = auth.login_user(USERNAME, password).unwrap();

        assert!(
            matches!(result, Err(LoginError::IncorrectPassword)),
            "login succeeded although password \"{}\" was incorrect: {:?}",
            password,
            result
        );
    }
}

#[test]
fn login_successful() {
    let mut auth = setup_inmemory_auth_service_with_user();

    let result = auth.login_user(USERNAME, USER_PASSWORD).unwrap();

    assert!(
        result.is_ok(),
        "login failed, but should have succeeded: {:?}",
        result
    );
}

#[test]
fn username() {
    let mut auth = setup_inmemory_auth_service_with_user();

    let (user_id, _token) = auth
        .login_user(USERNAME, USER_PASSWORD)
        .unwrap()
        .unwrap();

    let obtained = auth
        .get_username(user_id)
        .unwrap()
        .expect("no username at all");

    assert_eq!(obtained, "user123", "Wrong username");
}

#[test]
fn session_valid() {
    let mut auth = setup_inmemory_auth_service_with_user();

    let (login_user_id, session_token) = auth
        .login_user(USERNAME, USER_PASSWORD)
        .unwrap()
        .unwrap();

    let session_token_user_id = auth
        .get_authorized_user_id(&session_token)
        .unwrap()
        .expect("failed to get user from session token");

    assert_eq!(login_user_id, session_token_user_id, "Wrong user id");
}

#[test]
fn session_invalid() {
    let mut auth = setup_inmemory_auth_service_with_user();

    let (_login_user_id, _session_token) = auth
        .login_user(USERNAME, USER_PASSWORD)
        .unwrap()
        .unwrap();

    let authorized_user_id = auth
        .get_authorized_user_id(&SessionToken::generate_random())
        .unwrap();

    assert!(
        authorized_user_id.is_none(),
        "found authorized user, although used a wrong session token: {:?}",
        authorized_user_id
    );
}

#[test]
fn create_user_already_existing() {
    let mut auth = setup_inmemory_auth_service_with_user();

    let result = auth.create_user(USERNAME, USER_PASSWORD).unwrap();

    assert!(
        matches!(result, Err(CreateUserError::UserAlreadyExists)),
        "create user succeeded although existing username was used: {:?}",
        result
    );
}

#[test]
fn create_user_invalid_password() {
    let mut auth = setup_inmemory_auth_service();

    let invalid_password = "ABc123456";

    assert!(!taskboard::app::auth::validate_password(invalid_password));

    let result = auth.create_user("user123", invalid_password).unwrap();

    assert!(
        matches!(result, Err(CreateUserError::InvalidPassword)),
        "create user succeeded although invalid password was used: {:?}",
        result
    );
}

#[test]
fn create_user_invalid_username() {
    let mut auth = setup_inmemory_auth_service();

    let invalid_username = "user1";

    assert!(!taskboard::app::auth::validate_username(invalid_username));

    let result = auth.create_user(invalid_username, "ABc123456@").unwrap();

    assert!(
        matches!(result, Err(CreateUserError::InvalidUsername)),
        "create user succeeded although invalid username was used: {:?}",
        result
    );
}

#[test]
fn create_user_successful() {
    let mut auth = setup_inmemory_auth_service();

    let result = auth.create_user("user123", "ABc123456@").unwrap();

    assert!(
        matches!(result, Ok(_)),
        "create user failed but should have succeeded: {:?}",
        result
    );

    let (user_id, token) = result.unwrap();

    let session_user_id = auth.get_authorized_user_id(&token).unwrap().unwrap();
    assert_eq!(session_user_id, user_id);
}

#[test]
fn create_user_many() {
    let mut auth = setup_inmemory_auth_service();

    let num_users: usize = 1000;
    let base_username = "user123";
    let base_password = "ABc123456@";

    let mut created_users: Vec<(UserId, String, SessionToken)> = Vec::with_capacity(num_users);

    for n in 0..num_users {
        let username = format!("{}{}", base_username, n);
        let password = format!("{}{}", base_password, n);

        let (user_id, token) = auth
            .create_user(&username, &password)
            .unwrap()
            .expect("failed to create user");

        created_users.push((user_id, username, token));
    }

    // Verify that all users exist, each id distinct and each token
    // independently resolvable.
    let mut seen_ids: Vec<i64> = Vec::new();
    for (user_id, username, token) in created_users {
        assert!(!seen_ids.contains(&user_id.raw()));
        seen_ids.push(user_id.raw());

        let session_user_id = auth
            .get_authorized_user_id(&token)
            .unwrap()
            .expect("could not obtain user id from session token");

        assert_eq!(user_id, session_user_id);

        let obtained_username = auth.get_username(user_id).unwrap().expect("no username");
        assert_eq!(username, obtained_username);
    }
}

#[test]
fn first_session_survives_duplicate_registration() {
    let mut auth = setup_inmemory_auth_service();

    let (user_id, token) = auth
        .create_user("user123", "ABc123456@")
        .unwrap()
        .expect("failed to create user");

    let second = auth.create_user("user123", "XYz987654@").unwrap();
    assert!(matches!(second, Err(CreateUserError::UserAlreadyExists)));

    let resolved = auth
        .get_authorized_user_id(&token)
        .unwrap()
        .expect("first session became invalid");
    assert_eq!(resolved, user_id);
}
