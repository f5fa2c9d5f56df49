//! Bringing up the user table: the bootstrap that makes sure the two
//! reserved administrator accounts are stored, and the errors of bringing
//! the table up.

use crate::password::{bcrypt_error_text, hash_password, names_cost, verifies, HASH_COST};
use crate::stamp::{current_timestamp, new_user_id};
use crate::store::{
    by_username, has_username, insertion, lemma_by_username_at, lemma_push_has,
    position_of_username, rows_distinct, StoreError, UserStore,
};
use crate::text::str_eq;
use crate::user::{User, UserView, ROLE_ADMIN};
use vstd::prelude::*;
use vstd::std_specs::convert::FromSpecImpl;
use vstd::string::StringExecFns;

verus! {

/// Username of the first reserved administrator.
pub const ADMIN_ONE_USERNAME: &'static str = "fagan@admin_1";

/// Password that the first reserved administrator starts with.
pub const ADMIN_ONE_PASSWORD: &'static str = "fagan_glass";

/// Username of the second reserved administrator.
pub const ADMIN_TWO_USERNAME: &'static str = "fagan@admin_2";

/// Password that the second reserved administrator starts with.
pub const ADMIN_TWO_PASSWORD: &'static str = "fagan_aluminum";

/// How the description of a store's error begins.
pub const STORE_ERROR_PREFIX: &'static str = "Store error: ";

/// How the description of a hasher's error begins.
pub const BCRYPT_ERROR_PREFIX: &'static str = "Bcrypt error: ";

/// How the description of a database error begins.
pub const SQLITE_ERROR_PREFIX: &'static str = "SQLite error: ";

/// The error type of the rusqlite crate, carried through as an opaque value.
#[verifier::external_type_specification]
#[verifier::external_body]
pub struct ExSqliteError(rusqlite::Error);

/// The description that rusqlite gives of an error: its `Display` text.
pub uninterp spec fn sqlite_error_description(error: rusqlite::Error) -> Seq<char>;

/// Takes the description that rusqlite gives of one of its errors (its
/// `Display` text). It is assumed, not proved, that the text is
/// [`sqlite_error_description`] of the error: rusqlite writes it from what
/// the error value holds and from nothing else.
#[verifier::external_body]
pub(crate) fn sqlite_error_text(error: &rusqlite::Error) -> (r: String)
    ensures
        r@ == sqlite_error_description(*error),
{
    error.to_string()
}

/// Puts `prefix`, which says what failed, before the description of the
/// cause.
pub fn describe(prefix: &str, cause: &str) -> (r: String)
    ensures
        r@ == prefix@ + cause@,
{
    prefix.to_owned().concat(cause)
}

/// Why bringing up the user table failed.
#[derive(Debug)]
pub enum DatabaseError {
    /// The database behind the store failed. The bootstrap itself does not
    /// touch a database and never reports this; it is for the code that
    /// reads the table and writes it back.
    SqliteError(rusqlite::Error),
    /// bcrypt could not hash a password.
    BcryptError(bcrypt::BcryptError),
    /// The store refused a row.
    StoreError(StoreError),
}

impl From<rusqlite::Error> for DatabaseError {
    fn from(error: rusqlite::Error) -> (r: DatabaseError) {
        DatabaseError::SqliteError(error)
    }
}

impl FromSpecImpl<rusqlite::Error> for DatabaseError {
    open spec fn obeys_from_spec() -> bool {
        true
    }

    open spec fn from_spec(error: rusqlite::Error) -> DatabaseError {
        DatabaseError::SqliteError(error)
    }
}

impl From<StoreError> for DatabaseError {
    fn from(error: StoreError) -> (r: DatabaseError) {
        DatabaseError::StoreError(error)
    }
}

impl FromSpecImpl<StoreError> for DatabaseError {
    open spec fn obeys_from_spec() -> bool {
        true
    }

    open spec fn from_spec(error: StoreError) -> DatabaseError {
        DatabaseError::StoreError(error)
    }
}

impl From<bcrypt::BcryptError> for DatabaseError {
    fn from(error: bcrypt::BcryptError) -> (r: DatabaseError) {
        DatabaseError::BcryptError(error)
    }
}

impl FromSpecImpl<bcrypt::BcryptError> for DatabaseError {
    open spec fn obeys_from_spec() -> bool {
        true
    }

    open spec fn from_spec(error: bcrypt::BcryptError) -> DatabaseError {
        DatabaseError::BcryptError(error)
    }
}

impl DatabaseError {
    /// The description of the error: which part failed, then that part's own
    /// description of the cause and nothing else. Of bcrypt's description
    /// nothing more can be said: where the random source failed it is the
    /// operating system's text.
    pub fn message(&self) -> (r: String)
        ensures
            match self {
                DatabaseError::SqliteError(e) => r@ == SQLITE_ERROR_PREFIX@
                    + sqlite_error_description(*e),
                DatabaseError::BcryptError(_) => BCRYPT_ERROR_PREFIX@.is_prefix_of(r@),
                DatabaseError::StoreError(e) => r@ == STORE_ERROR_PREFIX@ + e.text(),
            },
    {
        match self {
            DatabaseError::SqliteError(e) => describe(
                SQLITE_ERROR_PREFIX,
                sqlite_error_text(e).as_str(),
            ),
            DatabaseError::BcryptError(e) => describe(
                BCRYPT_ERROR_PREFIX,
                bcrypt_error_text(e).as_str(),
            ),
            DatabaseError::StoreError(e) => describe(STORE_ERROR_PREFIX, e.message().as_str()),
        }
    }
}

/// The two reserved usernames are different texts.
pub proof fn lemma_reserved_usernames_differ()
    ensures
        ADMIN_ONE_USERNAME@ != ADMIN_TWO_USERNAME@,
{
    reveal_strlit("fagan@admin_1");
    reveal_strlit("fagan@admin_2");
    assert(ADMIN_ONE_USERNAME@[12] == '1');
    assert(ADMIN_TWO_USERNAME@[12] == '2');
}

/// The account under `username` is stored, and as an administrator.
pub open spec fn admin_stored(rows: Seq<UserView>, username: Seq<char>) -> bool {
    by_username(rows, username) matches Some(user) && user.role == ROLE_ADMIN@
}

/// The account under `username` is stored, but not as an administrator.
pub open spec fn held_by_other_role(rows: Seq<UserView>, username: Seq<char>) -> bool {
    by_username(rows, username) matches Some(user) && user.role != ROLE_ADMIN@
}

/// Both reserved administrators are stored: each reserved username is held
/// by an account with the administrator role.
pub open spec fn bootstrapped(rows: Seq<UserView>) -> bool {
    admin_stored(rows, ADMIN_ONE_USERNAME@) && admin_stored(rows, ADMIN_TWO_USERNAME@)
}

/// A reserved username is held by an account that is no administrator, so
/// that the reserved administrator cannot be stored.
pub open spec fn reserved_name_taken(rows: Seq<UserView>) -> bool {
    held_by_other_role(rows, ADMIN_ONE_USERNAME@) || held_by_other_role(
        rows,
        ADMIN_TWO_USERNAME@,
    )
}

/// The row of an administrator created at `created_at`.
pub open spec fn admin_row(
    id: Seq<char>,
    username: Seq<char>,
    password_hash: Seq<char>,
    created_at: Seq<char>,
) -> UserView {
    UserView {
        id: id,
        username: username,
        password_hash: password_hash,
        role: ROLE_ADMIN@,
        created_at: created_at,
        updated_at: created_at,
    }
}

/// What seeding the administrator `user` does: nothing where its username
/// is stored as an administrator already, and an insertion otherwise, which
/// fails where the username is held by an account of another role.
pub open spec fn seeding(rows: Seq<UserView>, user: UserView) -> Result<Seq<UserView>, StoreError> {
    if admin_stored(rows, user.username) {
        Ok(rows)
    } else {
        insertion(rows, user)
    }
}

/// `user` is a reserved administrator as the bootstrap makes it: a reserved
/// username, the administrator role, both times equal, and a hash made
/// with the fixed work factor against which that account's starting
/// password verifies.
pub open spec fn is_seeded_admin(user: UserView) -> bool {
    &&& user.role == ROLE_ADMIN@
    &&& user.created_at == user.updated_at
    &&& names_cost(user.password_hash, HASH_COST)
    &&& {
        ||| user.username == ADMIN_ONE_USERNAME@ && verifies(
            ADMIN_ONE_PASSWORD@,
            user.password_hash,
        )
        ||| user.username == ADMIN_TWO_USERNAME@ && verifies(
            ADMIN_TWO_PASSWORD@,
            user.password_hash,
        )
    }
}

/// `after` is `before` with nothing changed and, behind it, reserved
/// administrators whose usernames `before` did not hold, all created at the
/// same time.
pub open spec fn seeded(before: Seq<UserView>, after: Seq<UserView>) -> bool {
    &&& before.is_prefix_of(after)
    &&& forall|i: int|
        before.len() <= i < after.len() ==> is_seeded_admin(#[trigger] after[i]) && !has_username(
            before,
            after[i].username,
        )
    &&& forall|i: int, j: int|
        before.len() <= i < j < after.len() ==> (#[trigger] after[i]).created_at == (
        #[trigger] after[j]).created_at
}

/// Whether the account under `username` is stored as an administrator,
/// and whether it is stored under another role.
fn reserved_state(store: &UserStore, username: &str) -> (r: (bool, bool))
    ensures
        r.0 == admin_stored(store@, username@),
        r.1 == held_by_other_role(store@, username@),
{
    match store.find_by_username(username) {
        None => (false, false),
        Some(user) => {
            let is_admin = str_eq(user.role.as_str(), ROLE_ADMIN);
            (is_admin, !is_admin)
        },
    }
}

/// A row added under another username changes nothing of what is found
/// under `username`.
proof fn lemma_push_keeps_found(rows: Seq<UserView>, user: UserView, username: Seq<char>)
    requires
        rows_distinct(rows.push(user)),
        user.username != username,
    ensures
        by_username(rows.push(user), username) == by_username(rows, username),
{
    let after = rows.push(user);
    lemma_push_has(rows, user, username, user.id);
    if has_username(rows, username) {
        let i = position_of_username(rows, username);
        assert(after[i] == rows[i]);
        assert forall|x: int, y: int| 0 <= x < y < rows.len() implies (#[trigger] rows[x]).username
            != (#[trigger] rows[y]).username && rows[x].id != rows[y].id by {
            assert(after[x] == rows[x] && after[y] == rows[y]);
        }
        lemma_by_username_at(after, i);
        lemma_by_username_at(rows, i);
    }
}

/// Stores an administrator whose id, password hash and time of creation are
/// given, unless the username is stored as an administrator already. Where
/// the username is held by an account of another role, that is an error.
pub fn seed_admin(
    store: &mut UserStore,
    id: String,
    username: &str,
    password_hash: String,
    created_at: String,
) -> (r: Result<(), StoreError>)
    ensures
        match seeding(old(store)@, admin_row(id@, username@, password_hash@, created_at@)) {
            Ok(rows) => r is Ok && final(store)@ == rows,
            Err(e) => r == Err::<(), StoreError>(e) && final(store)@ == old(store)@,
        },
{
    if reserved_state(store, username).0 {
        return Ok(());
    }
    let user = User {
        id: id,
        username: username.to_owned(),
        password_hash: password_hash,
        role: ROLE_ADMIN.to_owned(),
        created_at: created_at.clone(),
        updated_at: created_at,
    };
    store.insert(user)
}

/// Makes sure that the two reserved administrators are stored. Where a
/// reserved username is held by an account that is no administrator, that
/// is an error and nothing is hashed or stored. Where both administrators
/// are stored, nothing happens; otherwise the missing ones are created with
/// their starting passwords and the current time. Rows that are stored are
/// never touched.
pub fn init_database(store: &mut UserStore) -> (r: Result<(), DatabaseError>)
    ensures
        seeded(old(store)@, final(store)@),
        reserved_name_taken(old(store)@) <==> r matches Err(
            DatabaseError::StoreError(StoreError::DuplicateUsername),
        ),
        reserved_name_taken(old(store)@) ==> final(store)@ == old(store)@,
        bootstrapped(old(store)@) ==> r is Ok && final(store)@ == old(store)@,
        match r {
            Ok(_) => bootstrapped(final(store)@),
            Err(DatabaseError::BcryptError(_)) => final(store)@ == old(store)@,
            Err(DatabaseError::StoreError(e)) => e == StoreError::DuplicateUsername || e
                == StoreError::DuplicateId,
            Err(DatabaseError::SqliteError(_)) => false,
        },
{
    proof {
        use_type_invariant(&*store);
        lemma_reserved_usernames_differ();
    }
    let (one_stored, one_taken) = reserved_state(store, ADMIN_ONE_USERNAME);
    let (two_stored, two_taken) = reserved_state(store, ADMIN_TWO_USERNAME);
    if one_taken || two_taken {
        return Err(DatabaseError::from(StoreError::DuplicateUsername));
    }
    if one_stored && two_stored {
        return Ok(());
    }
    let hash_one = match hash_password(ADMIN_ONE_PASSWORD, HASH_COST) {
        Ok(hash) => hash,
        Err(e) => {
            return Err(DatabaseError::from(e));
        },
    };
    let hash_two = match hash_password(ADMIN_TWO_PASSWORD, HASH_COST) {
        Ok(hash) => hash,
        Err(e) => {
            return Err(DatabaseError::from(e));
        },
    };
    let now = current_timestamp();
    let id_one = new_user_id();
    let ghost first = admin_row(id_one@, ADMIN_ONE_USERNAME@, hash_one@, now@);
    let ghost before = store@;
    match seed_admin(store, id_one, ADMIN_ONE_USERNAME, hash_one, now.clone()) {
        Ok(()) => {},
        Err(e) => {
            return Err(DatabaseError::from(e));
        },
    }
    let id_two = new_user_id();
    let ghost second = admin_row(id_two@, ADMIN_TWO_USERNAME@, hash_two@, now@);
    let ghost between = store@;
    proof {
        use_type_invariant(&*store);
        lemma_push_has(before, first, ADMIN_TWO_USERNAME@, id_two@);
        if between != before {
            lemma_push_keeps_found(before, first, ADMIN_TWO_USERNAME@);
            lemma_by_username_at(between, before.len() as int);
        }
    }
    match seed_admin(store, id_two, ADMIN_TWO_USERNAME, hash_two, now) {
        Ok(()) => {},
        Err(e) => {
            return Err(DatabaseError::from(e));
        },
    }
    proof {
        use_type_invariant(&*store);
        if store@ != between {
            lemma_push_keeps_found(between, second, ADMIN_ONE_USERNAME@);
            lemma_by_username_at(store@, between.len() as int);
        }
    }
    Ok(())
}

} // verus!
