use user_auth::auth::{login, LoginRequest};
use user_auth::database::{
    describe, init_database, seed_admin, DatabaseError, ADMIN_ONE_PASSWORD, ADMIN_ONE_USERNAME,
    ADMIN_TWO_PASSWORD, ADMIN_TWO_USERNAME,
};
use user_auth::store::{StoreError, UserStore};
use user_auth::user::User;

fn row(id: &str, username: &str, role: &str) -> User {
    User {
        id: id.to_string(),
        username: username.to_string(),
        password_hash: "h".to_string(),
        role: role.to_string(),
        created_at: "t0".to_string(),
        updated_at: "t0".to_string(),
    }
}

fn reserved_rows(store: &UserStore) -> usize {
    let mut n = 0;
    let mut i = 0;
    while let Some(user) = store.get(i) {
        if user.username == "fagan@admin_1" || user.username == "fagan@admin_2" {
            n += 1;
        }
        i += 1;
    }
    n
}

#[test]
fn reserved_accounts_are_the_documented_ones() {
    assert_eq!(ADMIN_ONE_USERNAME, "fagan@admin_1");
    assert_eq!(ADMIN_ONE_PASSWORD, "fagan_glass");
    assert_eq!(ADMIN_TWO_USERNAME, "fagan@admin_2");
    assert_eq!(ADMIN_TWO_PASSWORD, "fagan_aluminum");
}

#[test]
fn bootstrap_of_an_empty_store_creates_both_admins() {
    let mut store = UserStore::new();
    init_database(&mut store).unwrap();
    assert_eq!(store.len(), 2);
    let one = store.get(0).unwrap();
    let two = store.get(1).unwrap();
    assert_eq!(one.username, "fagan@admin_1");
    assert_eq!(two.username, "fagan@admin_2");
    assert_eq!(one.role, "admin");
    assert_eq!(two.role, "admin");
    assert_ne!(one.id, two.id);
    assert_eq!(one.created_at, one.updated_at);
    assert_eq!(two.created_at, two.updated_at);
    assert_eq!(one.created_at, two.created_at);
    assert!(bcrypt::verify("fagan_glass", &one.password_hash).unwrap());
    assert!(bcrypt::verify("fagan_aluminum", &two.password_hash).unwrap());
    assert!(!bcrypt::verify("fagan_glass", &two.password_hash).unwrap());
}

#[test]
fn bootstrap_twice_keeps_two_reserved_admins() {
    let mut store = UserStore::new();
    init_database(&mut store).unwrap();
    let first: Vec<(String, String)> =
        (0..store.len()).map(|i| store.get(i).unwrap()).map(|u| (u.id.clone(), u.password_hash.clone())).collect();
    init_database(&mut store).unwrap();
    assert_eq!(store.len(), 2);
    assert_eq!(reserved_rows(&store), 2);
    let second: Vec<(String, String)> =
        (0..store.len()).map(|i| store.get(i).unwrap()).map(|u| (u.id.clone(), u.password_hash.clone())).collect();
    assert_eq!(first, second);
}

#[test]
fn bootstrap_creates_only_the_missing_admin() {
    let mut store = UserStore::new();
    store.insert(row("kept", "fagan@admin_2", "admin")).unwrap();
    store.insert(row("other", "carol", "secretary")).unwrap();
    init_database(&mut store).unwrap();
    assert_eq!(store.len(), 3);
    assert_eq!(reserved_rows(&store), 2);
    let kept = store.find_by_username("fagan@admin_2").unwrap();
    assert_eq!(kept.id, "kept");
    assert_eq!(kept.password_hash, "h");
    assert_eq!(store.get(0).unwrap().id, "kept");
    assert_eq!(store.get(1).unwrap().id, "other");
    let made = store.get(2).unwrap();
    assert_eq!(made.username, "fagan@admin_1");
    assert_eq!(made.role, "admin");
}

#[test]
fn bootstrapped_admins_can_log_in_with_their_starting_passwords() {
    let mut store = UserStore::new();
    init_database(&mut store).unwrap();
    let one = login(
        &store,
        &LoginRequest { username: "fagan@admin_1".to_string(), password: "fagan_glass".to_string() },
    )
    .unwrap();
    assert!(one.success);
    assert_eq!(one.user.unwrap().role, "admin");
    let crossed = login(
        &store,
        &LoginRequest { username: "fagan@admin_2".to_string(), password: "fagan_glass".to_string() },
    )
    .unwrap();
    assert!(!crossed.success);
}

#[test]
fn seed_admin_leaves_a_stored_admin_alone() {
    let mut store = UserStore::new();
    store.insert(row("kept", "fagan@admin_1", "admin")).unwrap();
    let outcome = seed_admin(
        &mut store,
        "new".to_string(),
        "fagan@admin_1",
        "hash".to_string(),
        "t1".to_string(),
    );
    assert_eq!(outcome, Ok(()));
    assert_eq!(store.len(), 1);
    assert_eq!(store.get(0).unwrap().id, "kept");
    assert_eq!(store.get(0).unwrap().password_hash, "h");
    assert_eq!(store.get(0).unwrap().updated_at, "t0");
}

#[test]
fn seed_admin_fails_where_a_secretary_holds_the_username() {
    let mut store = UserStore::new();
    store.insert(row("kept", "fagan@admin_1", "secretary")).unwrap();
    let outcome = seed_admin(
        &mut store,
        "new".to_string(),
        "fagan@admin_1",
        "hash".to_string(),
        "t1".to_string(),
    );
    assert_eq!(outcome, Err(StoreError::DuplicateUsername));
    assert_eq!(store.len(), 1);
    assert_eq!(store.get(0).unwrap().id, "kept");
    assert_eq!(store.get(0).unwrap().role, "secretary");
}

#[test]
fn bootstrap_fails_where_a_secretary_holds_a_reserved_username() {
    let mut store = UserStore::new();
    store.insert(row("s", "fagan@admin_1", "secretary")).unwrap();
    store.insert(row("a", "fagan@admin_2", "admin")).unwrap();
    let outcome = init_database(&mut store);
    assert!(matches!(
        outcome,
        Err(DatabaseError::StoreError(StoreError::DuplicateUsername))
    ));
    assert_eq!(store.len(), 2);
    assert_eq!(store.get(0).unwrap().id, "s");
    assert_eq!(store.get(0).unwrap().role, "secretary");
    assert_eq!(store.get(1).unwrap().id, "a");
}

#[test]
fn bootstrap_stores_nothing_where_the_second_reserved_username_is_taken() {
    let mut store = UserStore::new();
    store.insert(row("s", "fagan@admin_2", "secretary")).unwrap();
    let outcome = init_database(&mut store);
    assert_eq!(
        outcome.unwrap_err().message(),
        "Store error: a user with this username is already stored"
    );
    assert_eq!(store.len(), 1);
    assert!(store.find_by_username("fagan@admin_1").is_none());
}

#[test]
fn bootstrap_hashes_with_the_fixed_work_factor() {
    let mut store = UserStore::new();
    init_database(&mut store).unwrap();
    for i in 0..2 {
        let hash = &store.get(i).unwrap().password_hash;
        assert_eq!(hash.len(), 60);
        assert_eq!(&hash[4..6], "10");
        assert_eq!(&hash[..4], "$2b$");
    }
}

#[test]
fn describe_puts_the_prefix_before_the_cause() {
    assert_eq!(describe("Bcrypt error: ", "no random bytes"), "Bcrypt error: no random bytes");
    assert_eq!(describe("", "cause"), "cause");
    assert_eq!(describe("SQLite error: ", ""), "SQLite error: ");
}

#[test]
fn seed_admin_stores_an_admin_row() {
    let mut store = UserStore::new();
    let outcome =
        seed_admin(&mut store, "new".to_string(), "chief", "hash".to_string(), "t1".to_string());
    assert_eq!(outcome, Ok(()));
    let made = store.get(0).unwrap();
    assert_eq!(made.id, "new");
    assert_eq!(made.username, "chief");
    assert_eq!(made.password_hash, "hash");
    assert_eq!(made.role, "admin");
    assert_eq!(made.created_at, "t1");
    assert_eq!(made.updated_at, "t1");
}

#[test]
fn seed_admin_reports_a_taken_id() {
    let mut store = UserStore::new();
    store.insert(row("same", "carol", "secretary")).unwrap();
    let outcome =
        seed_admin(&mut store, "same".to_string(), "chief", "hash".to_string(), "t1".to_string());
    assert_eq!(outcome, Err(StoreError::DuplicateId));
    assert_eq!(store.len(), 1);
}

#[test]
fn database_error_from_a_store_error_describes_it() {
    let error = DatabaseError::from(StoreError::DuplicateId);
    assert!(matches!(error, DatabaseError::StoreError(StoreError::DuplicateId)));
    assert_eq!(error.message(), "Store error: a user with this id is already stored");
}

#[test]
fn database_error_from_a_sqlite_error_describes_it() {
    let cause = rusqlite::Connection::open_in_memory()
        .unwrap()
        .execute("SELECT * FROM no_such_table", [])
        .unwrap_err();
    let expected = format!("SQLite error: {}", cause);
    let error = DatabaseError::from(cause);
    assert!(matches!(error, DatabaseError::SqliteError(_)));
    assert_eq!(error.message(), expected);
    assert!(expected.contains("no such table"));
}

#[test]
fn database_error_from_a_bcrypt_error_describes_it() {
    let cause = bcrypt::hash("x", 99).unwrap_err();
    let expected = format!("Bcrypt error: {}", cause);
    let error = DatabaseError::from(cause);
    assert!(matches!(error, DatabaseError::BcryptError(_)));
    assert_eq!(error.message(), expected);
}
