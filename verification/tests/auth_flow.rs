use user_auth::auth::{
    change_password, create_secretary_user, deactivate_secretary, get_all_users, login,
    AuthResponse, CreateUserRequest, LoginRequest,
};
use user_auth::database::init_database;
use user_auth::store::UserStore;
use user_auth::user::User;

// bcrypt hashes of cost 4, so that a test does not wait for cost 10
const HASH_OF_PASSWORD: &str = "$2a$04$UuTkLRZZ6QofpDOlMz32MuuxEHA43WOemOYHPz6.SjsVsyO1tDU96";
const HASH_OF_STAPLER: &str = "$2b$04$EGdrhbKUv8Oc9vGiXX0HQOxSg445d458Muh7DAHskb6QbtCvdxcie";

fn row(id: &str, username: &str, password_hash: &str, role: &str) -> User {
    User {
        id: id.to_string(),
        username: username.to_string(),
        password_hash: password_hash.to_string(),
        role: role.to_string(),
        created_at: "2024-01-01T00:00:00+00:00".to_string(),
        updated_at: "2024-01-01T00:00:00+00:00".to_string(),
    }
}

fn sample_store() -> UserStore {
    let mut store = UserStore::new();
    store.insert(row("id-root", "root", HASH_OF_PASSWORD, "admin")).unwrap();
    store.insert(row("id-sam", "sam", HASH_OF_STAPLER, "secretary")).unwrap();
    store
}

fn credentials(username: &str, password: &str) -> LoginRequest {
    LoginRequest { username: username.to_string(), password: password.to_string() }
}

fn new_account(username: &str, password: &str) -> CreateUserRequest {
    CreateUserRequest { username: username.to_string(), password: password.to_string() }
}

fn listed(store: &UserStore) -> Vec<(String, String, String)> {
    get_all_users(store).unwrap().into_iter().map(|u| (u.id, u.username, u.role)).collect()
}

fn assert_refused(response: &AuthResponse, message: &str) {
    assert!(!response.success);
    assert_eq!(response.message, message);
    assert!(response.user.is_none());
}

#[test]
fn login_with_correct_password_returns_the_public_view() {
    let store = sample_store();
    let response = login(&store, &credentials("sam", "correctbatteryhorsestapler")).unwrap();
    assert!(response.success);
    assert_eq!(response.message, "Login successful");
    let user = response.user.unwrap();
    assert_eq!(user.id, "id-sam");
    assert_eq!(user.username, "sam");
    assert_eq!(user.role, "secretary");
}

#[test]
fn login_of_an_admin_shows_the_admin_role() {
    let store = sample_store();
    let response = login(&store, &credentials("root", "password")).unwrap();
    assert!(response.success);
    let user = response.user.unwrap();
    assert_eq!(user.id, "id-root");
    assert_eq!(user.role, "admin");
}

#[test]
fn login_refusals_do_not_tell_unknown_user_from_wrong_password() {
    let store = sample_store();
    let unknown = login(&store, &credentials("nobody", "password")).unwrap();
    let wrong = login(&store, &credentials("root", "not the password")).unwrap();
    assert_refused(&unknown, "Invalid credentials");
    assert_refused(&wrong, "Invalid credentials");
    assert_eq!(unknown.success, wrong.success);
    assert_eq!(unknown.message, wrong.message);
    assert_eq!(unknown.user.is_none(), wrong.user.is_none());
}

#[test]
fn login_does_not_accept_the_hash_as_password() {
    let store = sample_store();
    let response = login(&store, &credentials("root", HASH_OF_PASSWORD)).unwrap();
    assert_refused(&response, "Invalid credentials");
}

#[test]
fn login_usernames_are_case_sensitive() {
    let store = sample_store();
    let response = login(&store, &credentials("Root", "password")).unwrap();
    assert_refused(&response, "Invalid credentials");
}

#[test]
fn login_against_an_unreadable_hash_is_an_error() {
    let mut store = UserStore::new();
    store.insert(row("id-x", "broken", "plain text", "secretary")).unwrap();
    let outcome = login(&store, &credentials("broken", "plain text"));
    let description = outcome.unwrap_err();
    assert_eq!(description, "Invalid hash: the hash format is malformed; expected 60 ASCII bytes");
    assert_eq!(description, bcrypt::verify("plain text", "plain text").unwrap_err().to_string());
}

#[test]
fn login_against_a_hash_with_a_cost_out_of_range_is_an_error() {
    let hash = "$2b$99$EGdrhbKUv8Oc9vGiXX0HQOxSg445d458Muh7DAHskb6QbtCvdxcie";
    let mut store = UserStore::new();
    store.insert(row("id-x", "broken", hash, "secretary")).unwrap();
    let description = login(&store, &credentials("broken", "any")).unwrap_err();
    assert_eq!(description, "Cost needs to be between 4 and 31, got 99");
}

#[test]
fn login_reads_only() {
    let store = sample_store();
    let before = listed(&store);
    let _ = login(&store, &credentials("root", "password")).unwrap();
    assert_eq!(listed(&store), before);
    assert_eq!(store.len(), 2);
}

#[test]
fn create_secretary_by_unknown_creator_inserts_nothing() {
    let mut store = sample_store();
    let before = listed(&store);
    let response = create_secretary_user(&mut store, &new_account("alice", "pw1"), "nobody").unwrap();
    assert_refused(&response, "Creator not found");
    assert_eq!(listed(&store), before);
}

#[test]
fn create_secretary_by_a_secretary_inserts_nothing() {
    let mut store = sample_store();
    let before = listed(&store);
    let response = create_secretary_user(&mut store, &new_account("alice", "pw1"), "sam").unwrap();
    assert_refused(&response, "Only admins can create secretary accounts");
    assert_eq!(listed(&store), before);
    assert!(store.find_by_username("alice").is_none());
}

#[test]
fn create_secretary_with_a_taken_username_changes_nothing() {
    let mut store = sample_store();
    let response = create_secretary_user(&mut store, &new_account("sam", "other"), "root").unwrap();
    assert_refused(&response, "Username already exists");
    assert_eq!(store.len(), 2);
    let kept = store.find_by_username("sam").unwrap();
    assert_eq!(kept.id, "id-sam");
    assert_eq!(kept.password_hash, HASH_OF_STAPLER);
    assert_eq!(kept.role, "secretary");
    assert_eq!(kept.updated_at, "2024-01-01T00:00:00+00:00");
}

#[test]
fn create_secretary_with_an_admins_username_changes_nothing() {
    let mut store = sample_store();
    let response = create_secretary_user(&mut store, &new_account("root", "other"), "root").unwrap();
    assert_refused(&response, "Username already exists");
    assert_eq!(store.find_by_username("root").unwrap().role, "admin");
}

#[test]
fn created_account_is_a_secretary() {
    let mut store = sample_store();
    let response = create_secretary_user(&mut store, &new_account("alice", "pw1"), "root").unwrap();
    assert!(response.success);
    assert_eq!(response.message, "Secretary account created successfully");
    let shown = response.user.unwrap();
    assert_eq!(shown.username, "alice");
    assert_eq!(shown.role, "secretary");
    let stored = store.find_by_username("alice").unwrap();
    assert_eq!(stored.id, shown.id);
    assert_eq!(stored.role, "secretary");
    assert_eq!(stored.created_at, stored.updated_at);
    assert_eq!(store.len(), 3);
}

#[test]
fn created_account_stores_a_hash_and_not_the_password() {
    let mut store = sample_store();
    create_secretary_user(&mut store, &new_account("alice", "pw1"), "root").unwrap();
    let stored = store.find_by_username("alice").unwrap();
    assert_ne!(stored.password_hash, "pw1");
    assert!(stored.password_hash.starts_with("$2b$10$"));
    assert_eq!(stored.password_hash.len(), 60);
    assert_eq!(&stored.password_hash[4..6], "10");
    assert!(bcrypt::verify("pw1", &stored.password_hash).unwrap());
}

#[test]
fn created_account_is_stamped_with_the_current_time() {
    let mut store = sample_store();
    let before = chrono::Local::now();
    create_secretary_user(&mut store, &new_account("alice", "pw1"), "root").unwrap();
    let after = chrono::Local::now();
    let stored = store.find_by_username("alice").unwrap();
    let stamped = chrono::DateTime::parse_from_rfc3339(&stored.created_at).unwrap();
    assert!(before <= stamped && stamped <= after);
}

#[test]
fn created_account_gets_a_random_uuid() {
    let mut store = sample_store();
    let created = create_secretary_user(&mut store, &new_account("alice", "pw1"), "root").unwrap();
    let id = uuid::Uuid::parse_str(&created.user.unwrap().id).unwrap();
    assert_eq!(id.get_version_num(), 4);
}

#[test]
fn created_accounts_get_ids_of_their_own() {
    let mut store = sample_store();
    let a = create_secretary_user(&mut store, &new_account("alice", "pw1"), "root").unwrap();
    let b = create_secretary_user(&mut store, &new_account("bob", "pw1"), "root").unwrap();
    let a = a.user.unwrap();
    let b = b.user.unwrap();
    assert_ne!(a.id, b.id);
    assert_eq!(a.id.len(), 36);
    assert_ne!(
        store.find_by_username("alice").unwrap().password_hash,
        store.find_by_username("bob").unwrap().password_hash
    );
}

#[test]
fn created_account_can_log_in() {
    let mut store = sample_store();
    let created = create_secretary_user(&mut store, &new_account("alice", "pw1"), "root").unwrap();
    let response = login(&store, &credentials("alice", "pw1")).unwrap();
    assert!(response.success);
    assert_eq!(response.user.unwrap().id, created.user.unwrap().id);
}

#[test]
fn change_password_for_an_unknown_id_is_an_error() {
    let mut store = sample_store();
    let outcome = change_password(&mut store, "no-such-id", "password", "next");
    assert_eq!(outcome.unwrap_err(), "User not found");
    assert_eq!(store.find_by_id("id-root").unwrap().password_hash, HASH_OF_PASSWORD);
}

#[test]
fn change_password_with_a_wrong_current_password_changes_nothing() {
    let mut store = sample_store();
    let response = change_password(&mut store, "id-root", "guess", "next").unwrap();
    assert_refused(&response, "Current password is incorrect");
    let kept = store.find_by_id("id-root").unwrap();
    assert_eq!(kept.password_hash, HASH_OF_PASSWORD);
    assert_eq!(kept.updated_at, "2024-01-01T00:00:00+00:00");
}

#[test]
fn change_password_against_an_unreadable_hash_is_an_error() {
    let mut store = UserStore::new();
    store.insert(row("id-x", "broken", "plain text", "secretary")).unwrap();
    let outcome = change_password(&mut store, "id-x", "plain text", "next");
    assert_eq!(
        outcome.unwrap_err(),
        "Invalid hash: the hash format is malformed; expected 60 ASCII bytes"
    );
    assert_eq!(store.find_by_id("id-x").unwrap().password_hash, "plain text");
}

#[test]
fn change_password_then_login_with_new_and_old() {
    let mut store = sample_store();
    let response = change_password(&mut store, "id-sam", "correctbatteryhorsestapler", "fresh").unwrap();
    assert!(response.success);
    assert_eq!(response.message, "Password changed successfully");
    assert!(response.user.is_none());
    assert!(login(&store, &credentials("sam", "fresh")).unwrap().success);
    let old = login(&store, &credentials("sam", "correctbatteryhorsestapler")).unwrap();
    assert_refused(&old, "Invalid credentials");
}

#[test]
fn change_password_touches_hash_and_update_time_only() {
    let mut store = sample_store();
    change_password(&mut store, "id-sam", "correctbatteryhorsestapler", "fresh").unwrap();
    let changed = store.find_by_id("id-sam").unwrap();
    assert_eq!(changed.username, "sam");
    assert_eq!(changed.role, "secretary");
    assert_eq!(changed.created_at, "2024-01-01T00:00:00+00:00");
    assert_ne!(changed.updated_at, "2024-01-01T00:00:00+00:00");
    assert_ne!(changed.password_hash, HASH_OF_STAPLER);
    assert_eq!(changed.password_hash.len(), 60);
    assert_eq!(&changed.password_hash[4..6], "10");
    let other = store.find_by_id("id-root").unwrap();
    assert_eq!(other.password_hash, HASH_OF_PASSWORD);
    assert_eq!(other.updated_at, "2024-01-01T00:00:00+00:00");
    assert_eq!(store.get(0).unwrap().id, "id-root");
    assert_eq!(store.get(1).unwrap().id, "id-sam");
}

#[test]
fn change_password_to_the_same_password_is_granted() {
    let mut store = sample_store();
    let response = change_password(&mut store, "id-root", "password", "password").unwrap();
    assert!(response.success);
    assert!(login(&store, &credentials("root", "password")).unwrap().success);
}

#[test]
fn deactivate_by_unknown_requester_is_refused() {
    let mut store = sample_store();
    let response = deactivate_secretary(&mut store, "id-sam", "nobody").unwrap();
    assert_refused(&response, "Admin not found");
    assert_eq!(store.len(), 2);
}

#[test]
fn deactivate_by_a_secretary_is_refused() {
    let mut store = sample_store();
    let response = deactivate_secretary(&mut store, "id-sam", "sam").unwrap();
    assert_refused(&response, "Only admins can deactivate secretary accounts");
    assert!(store.find_by_id("id-sam").is_some());
}

#[test]
fn deactivate_of_an_unknown_id_is_refused() {
    let mut store = sample_store();
    let response = deactivate_secretary(&mut store, "no-such-id", "root").unwrap();
    assert_refused(&response, "User not found");
    assert_eq!(store.len(), 2);
}

#[test]
fn deactivate_of_an_admin_is_refused_and_the_admin_stays() {
    let mut store = sample_store();
    let response = deactivate_secretary(&mut store, "id-root", "root").unwrap();
    assert_refused(&response, "Only secretary accounts can be deactivated");
    let kept = store.find_by_id("id-root").unwrap();
    assert_eq!(kept.username, "root");
    assert_eq!(kept.role, "admin");
    assert_eq!(store.len(), 2);
}

#[test]
fn deactivate_checks_the_requester_before_the_target() {
    let mut store = sample_store();
    let response = deactivate_secretary(&mut store, "no-such-id", "nobody").unwrap();
    assert_refused(&response, "Admin not found");
}

#[test]
fn deactivate_of_a_secretary_removes_the_row() {
    let mut store = sample_store();
    let response = deactivate_secretary(&mut store, "id-sam", "root").unwrap();
    assert!(response.success);
    assert_eq!(response.message, "Secretary account deactivated successfully");
    assert!(response.user.is_none());
    assert!(store.find_by_id("id-sam").is_none());
    assert!(store.find_by_username("sam").is_none());
    assert_eq!(store.len(), 1);
    assert_eq!(store.get(0).unwrap().id, "id-root");
}

#[test]
fn list_users_is_ordered_by_role_then_username() {
    let mut store = UserStore::new();
    store.insert(row("1", "zoe", "h", "secretary")).unwrap();
    store.insert(row("2", "root", "h", "admin")).unwrap();
    store.insert(row("3", "amy", "h", "secretary")).unwrap();
    store.insert(row("4", "boss", "h", "admin")).unwrap();
    store.insert(row("5", "Zed", "h", "secretary")).unwrap();
    store.insert(row("6", "am", "h", "secretary")).unwrap();
    let expected: Vec<(String, String, String)> = [
        ("4", "boss", "admin"),
        ("2", "root", "admin"),
        ("5", "Zed", "secretary"),
        ("6", "am", "secretary"),
        ("3", "amy", "secretary"),
        ("1", "zoe", "secretary"),
    ]
    .iter()
    .map(|(i, u, r)| (i.to_string(), u.to_string(), r.to_string()))
    .collect();
    assert_eq!(listed(&store), expected);
}

#[test]
fn list_users_of_an_empty_store_is_empty() {
    let store = UserStore::new();
    assert!(get_all_users(&store).unwrap().is_empty());
}

#[test]
fn list_users_needs_no_requester() {
    let store = sample_store();
    let users = get_all_users(&store).unwrap();
    assert_eq!(users.len(), 2);
    assert_eq!(users[0].username, "root");
    assert_eq!(users[1].username, "sam");
}

#[test]
fn end_to_end_scenario() {
    let mut store = UserStore::new();
    init_database(&mut store).unwrap();

    let created =
        create_secretary_user(&mut store, &new_account("alice", "pw1"), "fagan@admin_1").unwrap();
    assert!(created.success);
    let alice = created.user.unwrap();
    assert_eq!(alice.role, "secretary");

    let first = login(&store, &credentials("alice", "pw1")).unwrap();
    assert!(first.success);
    assert_eq!(first.user.unwrap().role, "secretary");

    let changed = change_password(&mut store, &alice.id, "pw1", "pw2").unwrap();
    assert!(changed.success);

    let stale = login(&store, &credentials("alice", "pw1")).unwrap();
    assert!(!stale.success);

    let removed = deactivate_secretary(&mut store, &alice.id, "fagan@admin_1").unwrap();
    assert!(removed.success);

    let gone = login(&store, &credentials("alice", "pw2")).unwrap();
    assert_refused(&gone, "Invalid credentials");
    assert!(store.find_by_id(&alice.id).is_none());
}
