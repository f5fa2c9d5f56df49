//! Login and the account operations that only an administrator may perform.
//!
//! An operation answers with an [`AuthResponse`] whatever the caller got
//! wrong: bad credentials, a missing account, a role that may not do this.
//! `Err` is kept for what the caller could not have known: a stored hash that
//! bcrypt cannot read, a hasher that fails, an identifier that is taken. It
//! carries the description of what failed.

use crate::password::{
    bcrypt_error_text, bcrypt_verify, check_password, hash_password, names_cost, verifies,
    HASH_COST,
};
use crate::stamp::{current_timestamp, new_user_id};
use crate::store::{
    by_id, by_username, has_id, has_username, insertion, is_listing_of, lemma_with_password_at,
    with_password, without_secretary, StoreError, UserStore,
};
use crate::text::str_eq;
use crate::user::{
    public_view, response_views, User, UserResponse, UserResponseView, UserView, ROLE_ADMIN,
    ROLE_SECRETARY,
};
use vstd::prelude::*;

verus! {

/// Message of a granted login.
pub const MSG_LOGIN_SUCCESSFUL: &'static str = "Login successful";

/// Message of a refused login, whichever of username and password was wrong.
pub const MSG_INVALID_CREDENTIALS: &'static str = "Invalid credentials";

/// Message for a creator that is not stored.
pub const MSG_CREATOR_NOT_FOUND: &'static str = "Creator not found";

/// Message for a creator that is no administrator.
pub const MSG_ONLY_ADMINS_CREATE: &'static str = "Only admins can create secretary accounts";

/// Message of a granted creation.
pub const MSG_SECRETARY_CREATED: &'static str = "Secretary account created successfully";

/// Message for a creation under a username that is taken.
pub const MSG_USERNAME_EXISTS: &'static str = "Username already exists";

/// Message, and error text, for an account id that is not stored.
pub const MSG_USER_NOT_FOUND: &'static str = "User not found";

/// Message for a password change with a wrong current password.
pub const MSG_WRONG_CURRENT_PASSWORD: &'static str = "Current password is incorrect";

/// Message of a granted password change.
pub const MSG_PASSWORD_CHANGED: &'static str = "Password changed successfully";

/// Message for a deactivation asked by an account that is not stored.
pub const MSG_ADMIN_NOT_FOUND: &'static str = "Admin not found";

/// Message for a deactivation asked by an account that is no administrator.
pub const MSG_ONLY_ADMINS_DEACTIVATE: &'static str = "Only admins can deactivate secretary accounts";

/// Message for a deactivation aimed at an account that is no secretary.
pub const MSG_ONLY_SECRETARIES: &'static str = "Only secretary accounts can be deactivated";

/// Message of a granted deactivation.
pub const MSG_SECRETARY_DEACTIVATED: &'static str = "Secretary account deactivated successfully";

/// A username and the password offered for it.
#[derive(Debug)]
pub struct LoginRequest {
    pub username: String,
    pub password: String,
}

/// The account to create: its username and its first password.
#[derive(Debug)]
pub struct CreateUserRequest {
    pub username: String,
    pub password: String,
}

/// The answer to an operation.
#[derive(Debug)]
pub struct AuthResponse {
    pub success: bool,
    pub message: String,
    pub user: Option<UserResponse>,
}

/// Mathematical value of an [`AuthResponse`].
pub struct AuthResponseView {
    pub success: bool,
    pub message: Seq<char>,
    pub user: Option<UserResponseView>,
}

impl View for AuthResponse {
    type V = AuthResponseView;

    open spec fn view(&self) -> AuthResponseView {
        AuthResponseView {
            success: self.success,
            message: self.message@,
            user: match self.user {
                Some(u) => Some(u@),
                None => None,
            },
        }
    }
}

/// The answer that refuses, with the reason.
pub open spec fn refusal(message: Seq<char>) -> AuthResponseView {
    AuthResponseView { success: false, message: message, user: None }
}

/// The answer that grants, with the account it is about where there is one.
pub open spec fn approval(message: Seq<char>, user: Option<UserResponseView>) -> AuthResponseView {
    AuthResponseView { success: true, message: message, user: user }
}

impl AuthResponse {
    /// An answer that refuses.
    pub fn refuse(message: &str) -> (r: AuthResponse)
        ensures
            r@ == refusal(message@),
    {
        AuthResponse { success: false, message: message.to_owned(), user: None }
    }

    /// An answer that grants.
    pub fn approve(message: &str, user: Option<UserResponse>) -> (r: AuthResponse)
        ensures
            r@ == approval(
                message@,
                match user {
                    Some(u) => Some(u@),
                    None => None,
                },
            ),
    {
        AuthResponse { success: true, message: message.to_owned(), user: user }
    }
}

/// The outcome of an operation that answered.
pub open spec fn answered(answer: AuthResponseView) -> Result<AuthResponseView, Seq<char>> {
    Ok(answer)
}

/// The outcome of an operation that ended in an error, with the error's
/// description.
pub open spec fn failed(cause: Seq<char>) -> Result<AuthResponseView, Seq<char>> {
    Err(cause)
}

/// The answer to a login for a stored account, once it is known whether the
/// password matched its hash. A mismatch is answered like an unknown
/// username.
pub open spec fn login_answer(user: UserView, password_matches: bool) -> AuthResponseView {
    if password_matches {
        approval(MSG_LOGIN_SUCCESSFUL@, Some(public_view(user)))
    } else {
        refusal(MSG_INVALID_CREDENTIALS@)
    }
}

/// What a login is owed: the answer, or, where bcrypt cannot read the
/// stored hash, the error with bcrypt's description of what is wrong.
pub open spec fn login_outcome(
    rows: Seq<UserView>,
    username: Seq<char>,
    password: Seq<char>,
) -> Result<AuthResponseView, Seq<char>> {
    match by_username(rows, username) {
        None => Ok(refusal(MSG_INVALID_CREDENTIALS@)),
        Some(user) => match bcrypt_verify(password, user.password_hash) {
            Ok(matches) => Ok(login_answer(user, matches)),
            Err(cause) => Err(cause),
        },
    }
}

/// Answers a login for the stored account `user`, given whether the offered
/// password matched.
pub fn login_response(user: &User, password_matches: bool) -> (r: AuthResponse)
    ensures
        r@ == login_answer(user@, password_matches),
{
    if password_matches {
        AuthResponse::approve(MSG_LOGIN_SUCCESSFUL, Some(user.to_response()))
    } else {
        AuthResponse::refuse(MSG_INVALID_CREDENTIALS)
    }
}

/// Checks a username and password against the store. Reads only.
pub fn login(store: &UserStore, credentials: &LoginRequest) -> (r: Result<AuthResponse, String>)
    ensures
        match r {
            Ok(response) => login_outcome(store@, credentials.username@, credentials.password@)
                == answered(response@),
            Err(cause) => login_outcome(store@, credentials.username@, credentials.password@)
                == failed(cause@),
        },
{
    match store.find_by_username(credentials.username.as_str()) {
        None => Ok(AuthResponse::refuse(MSG_INVALID_CREDENTIALS)),
        Some(user) => match check_password(
            credentials.password.as_str(),
            user.password_hash.as_str(),
        ) {
            Ok(matches) => Ok(login_response(user, matches)),
            Err(cause) => Err(cause),
        },
    }
}

/// Why `creator` may not create accounts, if it may not: it is not stored,
/// or it is no administrator.
pub open spec fn creator_refusal(rows: Seq<UserView>, creator: Seq<char>) -> Option<
    AuthResponseView,
> {
    match by_username(rows, creator) {
        None => Some(refusal(MSG_CREATOR_NOT_FOUND@)),
        Some(user) => if user.role != ROLE_ADMIN@ {
            Some(refusal(MSG_ONLY_ADMINS_CREATE@))
        } else {
            None
        },
    }
}

/// The row of a secretary created at `created_at`.
pub open spec fn secretary_row(
    id: Seq<char>,
    username: Seq<char>,
    password_hash: Seq<char>,
    created_at: Seq<char>,
) -> UserView {
    UserView {
        id: id,
        username: username,
        password_hash: password_hash,
        role: ROLE_SECRETARY@,
        created_at: created_at,
        updated_at: created_at,
    }
}

/// What storing the new secretary `user` comes to: the rows afterwards, and
/// the answer. A taken username is answered and changes nothing; a taken id
/// changes nothing and has no answer, it ends in an error.
pub open spec fn registration(rows: Seq<UserView>, user: UserView) -> (
    Seq<UserView>,
    Option<AuthResponseView>,
) {
    match insertion(rows, user) {
        Ok(after) => (after, Some(approval(MSG_SECRETARY_CREATED@, Some(public_view(user))))),
        Err(StoreError::DuplicateUsername) => (rows, Some(refusal(MSG_USERNAME_EXISTS@))),
        Err(_) => (rows, None),
    }
}

/// `user` is a secretary's row as creation makes it for this request: the
/// requested username, the secretary role, both times equal, and a hash
/// made with the fixed work factor against which the requested password
/// verifies.
pub open spec fn is_new_secretary(user: UserView, username: Seq<char>, password: Seq<char>) -> bool {
    &&& user.username == username
    &&& user.role == ROLE_SECRETARY@
    &&& user.created_at == user.updated_at
    &&& verifies(password, user.password_hash)
    &&& names_cost(user.password_hash, HASH_COST)
}

/// Says why the account named `creator_username` may not create accounts,
/// or `None` if it may.
pub fn refuse_creator(store: &UserStore, creator_username: &str) -> (r: Option<AuthResponse>)
    ensures
        match r {
            Some(response) => creator_refusal(store@, creator_username@) == Some(response@),
            None => creator_refusal(store@, creator_username@) is None,
        },
{
    match store.find_by_username(creator_username) {
        None => Some(AuthResponse::refuse(MSG_CREATOR_NOT_FOUND)),
        Some(user) => if !str_eq(user.role.as_str(), ROLE_ADMIN) {
            Some(AuthResponse::refuse(MSG_ONLY_ADMINS_CREATE))
        } else {
            None
        },
    }
}

/// Stores a new secretary whose id, password hash and time of creation are
/// given, and answers.
pub fn register_secretary(
    store: &mut UserStore,
    id: String,
    username: &str,
    password_hash: String,
    created_at: String,
) -> (r: Result<AuthResponse, String>)
    ensures
        ({
            let user = secretary_row(id@, username@, password_hash@, created_at@);
            let (rows, answer) = registration(old(store)@, user);
            &&& final(store)@ == rows
            &&& match r {
                Ok(response) => answer == Some(response@),
                Err(e) => answer is None && e@ == StoreError::DuplicateId.text(),
            }
        }),
{
    let user = User {
        id: id,
        username: username.to_owned(),
        password_hash: password_hash,
        role: ROLE_SECRETARY.to_owned(),
        created_at: created_at.clone(),
        updated_at: created_at,
    };
    let shown = user.to_response();
    match store.insert(user) {
        Ok(()) => Ok(AuthResponse::approve(MSG_SECRETARY_CREATED, Some(shown))),
        Err(StoreError::DuplicateUsername) => Ok(AuthResponse::refuse(MSG_USERNAME_EXISTS)),
        Err(e) => Err(e.message()),
    }
}

/// Creates a secretary account on behalf of `creator_username`, who must be
/// an administrator. The new account's role is always secretary. The
/// creator is checked before anything is hashed or stored.
pub fn create_secretary_user(
    store: &mut UserStore,
    request: &CreateUserRequest,
    creator_username: &str,
) -> (r: Result<AuthResponse, String>)
    ensures
        match creator_refusal(old(store)@, creator_username@) {
            Some(refused) => final(store)@ == old(store)@ && (r matches Ok(response) && response@
                == refused),
            None => match r {
                Ok(response) => if has_username(old(store)@, request.username@) {
                    final(store)@ == old(store)@ && response@ == refusal(MSG_USERNAME_EXISTS@)
                } else {
                    let user = final(store)@.last();
                    &&& final(store)@ == old(store)@.push(user)
                    &&& is_new_secretary(user, request.username@, request.password@)
                    &&& !has_id(old(store)@, user.id)
                    &&& response@ == approval(MSG_SECRETARY_CREATED@, Some(public_view(user)))
                },
                Err(_) => final(store)@ == old(store)@,
            },
        },
{
    match refuse_creator(store, creator_username) {
        Some(response) => {
            return Ok(response);
        },
        None => {},
    }
    let password_hash = match hash_password(request.password.as_str(), HASH_COST) {
        Ok(hash) => hash,
        Err(e) => {
            return Err(bcrypt_error_text(&e));
        },
    };
    let id = new_user_id();
    let now = current_timestamp();
    register_secretary(store, id, request.username.as_str(), password_hash, now)
}

/// Lists every account's public part, ordered by role and then by
/// username. Whether the caller may see the list is for the caller to
/// decide.
pub fn get_all_users(store: &UserStore) -> (r: Result<Vec<UserResponse>, String>)
    ensures
        r matches Ok(list) && is_listing_of(store@, response_views(list@)),
{
    Ok(store.list_all())
}

/// The rows `after` are the rows `before` with the password of the account
/// `id` replaced: the account's hash in `after` is one made with the fixed
/// work factor against which `password` verifies, and but for that hash and
/// the account's time of change the rows are the same.
pub open spec fn password_set(
    before: Seq<UserView>,
    after: Seq<UserView>,
    id: Seq<char>,
    password: Seq<char>,
) -> bool {
    &&& by_id(before, id) is Some
    &&& by_id(after, id) matches Some(changed) && verifies(password, changed.password_hash)
        && names_cost(changed.password_hash, HASH_COST) && after == with_password(
        before,
        id,
        changed.password_hash,
        changed.updated_at,
    )
}

/// Gives the account `user_id` the password hash `password_hash`, noting
/// `changed_at` as the time, and answers.
pub fn apply_password_change(
    store: &mut UserStore,
    user_id: &str,
    password_hash: String,
    changed_at: String,
) -> (r: Result<AuthResponse, String>)
    ensures
        match by_id(old(store)@, user_id@) {
            Some(_) => final(store)@ == with_password(
                old(store)@,
                user_id@,
                password_hash@,
                changed_at@,
            ) && (r matches Ok(response) && response@ == approval(MSG_PASSWORD_CHANGED@, None)),
            None => final(store)@ == old(store)@ && (r matches Err(e) && e@
                == MSG_USER_NOT_FOUND@),
        },
{
    match store.update_password_hash(user_id, password_hash, changed_at) {
        Ok(()) => Ok(AuthResponse::approve(MSG_PASSWORD_CHANGED, None)),
        Err(_) => Err(MSG_USER_NOT_FOUND.to_owned()),
    }
}

/// Finishes a password change once it is known whether the current
/// password matched: refuses if it did not, and otherwise hashes the new
/// password and stores the hash.
pub fn change_password_checked(
    store: &mut UserStore,
    user_id: &str,
    current_matches: bool,
    new_password: &str,
) -> (r: Result<AuthResponse, String>)
    ensures
        !current_matches ==> final(store)@ == old(store)@ && (r matches Ok(response) && response@
            == refusal(MSG_WRONG_CURRENT_PASSWORD@)),
        current_matches ==> match r {
            Ok(response) => response@ == approval(MSG_PASSWORD_CHANGED@, None) && password_set(
                old(store)@,
                final(store)@,
                user_id@,
                new_password@,
            ),
            Err(_) => final(store)@ == old(store)@,
        },
{
    if !current_matches {
        return Ok(AuthResponse::refuse(MSG_WRONG_CURRENT_PASSWORD));
    }
    let password_hash = match hash_password(new_password, HASH_COST) {
        Ok(hash) => hash,
        Err(e) => {
            return Err(bcrypt_error_text(&e));
        },
    };
    let now = current_timestamp();
    proof {
        use_type_invariant(&*store);
        if by_id(store@, user_id@) is Some {
            lemma_with_password_at(store@, user_id@, password_hash@, now@);
        }
    }
    apply_password_change(store, user_id, password_hash, now)
}

/// Changes the password of the account `user_id`, if `old_password` is its
/// current one. That the account is not stored is an error, not an answer.
/// The new password may equal the old one; no rule is put on it.
pub fn change_password(
    store: &mut UserStore,
    user_id: &str,
    old_password: &str,
    new_password: &str,
) -> (r: Result<AuthResponse, String>)
    ensures
        match by_id(old(store)@, user_id@) {
            None => final(store)@ == old(store)@ && (r matches Err(e) && e@
                == MSG_USER_NOT_FOUND@),
            Some(user) => match bcrypt_verify(old_password@, user.password_hash) {
                Err(cause) => final(store)@ == old(store)@ && (r matches Err(e) && e@ == cause),
                Ok(false) => final(store)@ == old(store)@ && (r matches Ok(response)
                    && response@ == refusal(MSG_WRONG_CURRENT_PASSWORD@)),
                Ok(true) => match r {
                    Ok(response) => response@ == approval(MSG_PASSWORD_CHANGED@, None)
                        && password_set(old(store)@, final(store)@, user_id@, new_password@),
                    Err(_) => final(store)@ == old(store)@,
                },
            },
        },
{
    let checked = match store.find_by_id(user_id) {
        None => {
            return Err(MSG_USER_NOT_FOUND.to_owned());
        },
        Some(user) => check_password(old_password, user.password_hash.as_str()),
    };
    match checked {
        Ok(matches) => change_password_checked(store, user_id, matches, new_password),
        Err(cause) => Err(cause),
    }
}

/// Why the account named `admin_username` may not remove the account
/// `user_id`, if it may not. The requester is looked at first, then the
/// target.
pub open spec fn deactivation_refusal(
    rows: Seq<UserView>,
    user_id: Seq<char>,
    admin_username: Seq<char>,
) -> Option<AuthResponseView> {
    match by_username(rows, admin_username) {
        None => Some(refusal(MSG_ADMIN_NOT_FOUND@)),
        Some(requester) => if requester.role != ROLE_ADMIN@ {
            Some(refusal(MSG_ONLY_ADMINS_DEACTIVATE@))
        } else {
            match by_id(rows, user_id) {
                None => Some(refusal(MSG_USER_NOT_FOUND@)),
                Some(target) => if target.role != ROLE_SECRETARY@ {
                    Some(refusal(MSG_ONLY_SECRETARIES@))
                } else {
                    None
                },
            }
        },
    }
}

/// What a deactivation comes to: the rows afterwards, and the answer.
pub open spec fn deactivation(
    rows: Seq<UserView>,
    user_id: Seq<char>,
    admin_username: Seq<char>,
) -> (Seq<UserView>, AuthResponseView) {
    match deactivation_refusal(rows, user_id, admin_username) {
        Some(refused) => (rows, refused),
        None => (without_secretary(rows, user_id), approval(MSG_SECRETARY_DEACTIVATED@, None)),
    }
}

/// Removes the secretary account `user_id` on behalf of `admin_username`,
/// who must be an administrator. Accounts that are no secretaries are never
/// removed.
pub fn deactivate_secretary(store: &mut UserStore, user_id: &str, admin_username: &str) -> (r:
    Result<AuthResponse, String>)
    ensures
        r matches Ok(response) && (final(store)@, response@) == deactivation(
            old(store)@,
            user_id@,
            admin_username@,
        ),
{
    match store.find_by_username(admin_username) {
        None => {
            return Ok(AuthResponse::refuse(MSG_ADMIN_NOT_FOUND));
        },
        Some(requester) => {
            if !str_eq(requester.role.as_str(), ROLE_ADMIN) {
                return Ok(AuthResponse::refuse(MSG_ONLY_ADMINS_DEACTIVATE));
            }
        },
    }
    match store.find_by_id(user_id) {
        None => {
            return Ok(AuthResponse::refuse(MSG_USER_NOT_FOUND));
        },
        Some(target) => {
            if !str_eq(target.role.as_str(), ROLE_SECRETARY) {
                return Ok(AuthResponse::refuse(MSG_ONLY_SECRETARIES));
            }
        },
    }
    let _ = store.delete_secretary(user_id);
    Ok(AuthResponse::approve(MSG_SECRETARY_DEACTIVATED, None))
}

} // verus!
