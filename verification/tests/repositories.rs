use taskboard::app::repositories::{
    RepoError, SessionsRepository, TasksRepository, UsersRepositry,
};
use taskboard::model::tasks::generate_random;
use taskboard::model::types::UniqueId;
use taskboard::storage::inmemory::{InMemorySessions, InMemoryTasks, InMemoryUsers};

#[test]
fn generated_ids_are_32_hex_chars() {
    let id = generate_random();
    assert_eq!(id.len(), 32);
    assert!(id.chars().all(|c| c.is_ascii_hexdigit() && !c.is_uppercase()));
}

#[test]
fn session_round_trip() {
    let mut sessions = InMemorySessions::new();
    let user_id = UniqueId::from_raw(7);

    let token = sessions.create_user_session(user_id).unwrap();
    assert_eq!(token.as_str().len(), 32);

    let resolved = sessions.get_authorized_user_id(&token).unwrap().unwrap();
    assert_eq!(resolved, user_id);
}

#[test]
fn unknown_token_resolves_to_nobody() {
    let mut sessions = InMemorySessions::new();
    let token = sessions
        .create_user_session(UniqueId::from_raw(1))
        .unwrap();

    let other = InMemorySessions::new();
    assert!(other.get_authorized_user_id(&token).unwrap().is_none());
}

#[test]
fn created_users_get_distinct_ids() {
    let mut users = InMemoryUsers::new();

    let a = users.create_user("first_user", "pw1").unwrap();
    let b = users.create_user("second_user", "pw2").unwrap();

    // Ids are handed out from a counter starting at 1, one step per user.
    assert_eq!(a.raw(), 1);
    assert_eq!(b.raw(), 2);
    assert_ne!(a.raw(), b.raw());
    assert!(users.does_user_exist_by_username("first_user").unwrap());
    assert!(users.does_user_exist_by_username("second_user").unwrap());
    assert!(!users.does_user_exist_by_username("third_user").unwrap());
}

#[test]
fn duplicate_username_is_rejected_by_storage() {
    let mut users = InMemoryUsers::new();

    users.create_user("first_user", "pw1").unwrap();
    let second = users.create_user("first_user", "pw2");

    assert!(matches!(second, Err(RepoError::UniqueViolation)));
}

#[test]
fn find_user_with_password_returns_stored_password() {
    let mut users = InMemoryUsers::new();
    let id = users.create_user("first_user", "secret_pw").unwrap();

    let (found_id, password) = users.find_user_with_password("first_user").unwrap().unwrap();
    assert_eq!(found_id, id);
    assert_eq!(password, "secret_pw");

    assert!(users.find_user_with_password("missing").unwrap().is_none());
}

#[test]
fn get_username_absent_user() {
    let users = InMemoryUsers::new();
    assert!(users.get_username(UniqueId::from_raw(5)).unwrap().is_none());
}

#[test]
fn add_user_rejects_duplicates() {
    let mut users = InMemoryUsers::new();
    users.add_user(UniqueId::from_raw(3), "first_user", "pw").unwrap();

    let same_name = users.add_user(UniqueId::from_raw(4), "first_user", "pw");
    assert!(matches!(same_name, Err(RepoError::UniqueViolation)));

    let same_id = users.add_user(UniqueId::from_raw(3), "other_user", "pw");
    assert!(matches!(same_id, Err(RepoError::UniqueViolation)));
}

#[test]
fn task_crud_round_trip() {
    let mut tasks = InMemoryTasks::new();
    let user = UniqueId::from_raw(1);

    let task_id = tasks.create_task(user, "label", "desc", "cat1").unwrap();
    assert_eq!(task_id.len(), 32);

    let fetched = tasks.fetch_tasks(user).unwrap();
    assert_eq!(fetched.len(), 1);
    assert_eq!(fetched[0].task_id, task_id);
    assert_eq!(fetched[0].label, "label");
    assert_eq!(fetched[0].description, "desc");
    assert_eq!(fetched[0].category_id, "cat1");

    tasks
        .modify_task(user, &task_id, "label2", "desc2", "cat2")
        .unwrap();
    let fetched = tasks.fetch_tasks(user).unwrap();
    assert_eq!(fetched.len(), 1);
    assert_eq!(fetched[0].label, "label2");
    assert_eq!(fetched[0].description, "desc2");
    assert_eq!(fetched[0].category_id, "cat2");

    tasks.delete_task(user, &task_id).unwrap();
    assert_eq!(tasks.fetch_tasks(user).unwrap().len(), 0);
}

#[test]
fn tasks_are_scoped_per_user() {
    let mut tasks = InMemoryTasks::new();
    let alice = UniqueId::from_raw(1);
    let bob = UniqueId::from_raw(2);

    tasks.create_task(alice, "a", "", "c").unwrap();
    tasks.create_task(bob, "b", "", "c").unwrap();

    let for_alice = tasks.fetch_tasks(alice).unwrap();
    assert_eq!(for_alice.len(), 1);
    assert_eq!(for_alice[0].label, "a");

    let for_bob = tasks.fetch_tasks(bob).unwrap();
    assert_eq!(for_bob.len(), 1);
    assert_eq!(for_bob[0].label, "b");
}

#[test]
fn modify_missing_task_is_not_found() {
    let mut tasks = InMemoryTasks::new();
    let r = tasks.modify_task(UniqueId::from_raw(1), "nope", "l", "d", "c");
    assert!(matches!(r, Err(RepoError::NotFound)));
}

#[test]
fn delete_missing_task_is_not_found() {
    let mut tasks = InMemoryTasks::new();
    let r = tasks.delete_task(UniqueId::from_raw(1), "nope");
    assert!(matches!(r, Err(RepoError::NotFound)));
}

#[test]
fn delete_touches_only_the_named_task() {
    let mut tasks = InMemoryTasks::new();
    let user = UniqueId::from_raw(1);

    let first = tasks.create_task(user, "a", "", "c").unwrap();
    let second = tasks.create_task(user, "b", "", "c").unwrap();

    tasks.delete_task(user, &first).unwrap();

    let fetched = tasks.fetch_tasks(user).unwrap();
    assert_eq!(fetched.len(), 1);
    assert_eq!(fetched[0].task_id, second);
}

#[test]
fn add_categories_creates_all_labels() {
    let mut tasks = InMemoryTasks::new();
    let user = UniqueId::from_raw(1);

    let labels = ["ToDo", "In progress", "Completed"];
    let descs = tasks.add_categories(user, &labels).unwrap();

    assert_eq!(descs.len(), 3);
    for (desc, label) in descs.iter().zip(labels.iter()) {
        assert_eq!(desc.label, *label);
        assert_eq!(desc.category_id.len(), 32);
    }
    assert_ne!(descs[0].category_id, descs[1].category_id);
    assert_ne!(descs[0].category_id, descs[2].category_id);
    assert_ne!(descs[1].category_id, descs[2].category_id);

    let fetched = tasks.fetch_categories(user).unwrap();
    assert_eq!(fetched.len(), 3);
    for (fetched_desc, desc) in fetched.iter().zip(descs.iter()) {
        assert_eq!(fetched_desc.category_id, desc.category_id);
        assert_eq!(fetched_desc.label, desc.label);
    }
}

#[test]
fn categories_are_scoped_per_user() {
    let mut tasks = InMemoryTasks::new();
    let alice = UniqueId::from_raw(1);
    let bob = UniqueId::from_raw(2);

    tasks.add_categories(alice, &["one"]).unwrap();
    tasks.add_categories(bob, &["two", "three"]).unwrap();

    assert_eq!(tasks.fetch_categories(alice).unwrap().len(), 1);
    assert_eq!(tasks.fetch_categories(bob).unwrap().len(), 2);
}
