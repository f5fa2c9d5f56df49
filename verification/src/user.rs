//! User records and the part of them that may leave the library.

use vstd::prelude::*;

verus! {

/// Role text of an administrator account.
pub const ROLE_ADMIN: &'static str = "admin";

/// Role text of a secretary account.
pub const ROLE_SECRETARY: &'static str = "secretary";

/// The two roles are different texts.
pub proof fn lemma_roles_differ()
    ensures
        ROLE_ADMIN@ != ROLE_SECRETARY@,
{
    reveal_strlit("admin");
    reveal_strlit("secretary");
    assert(ROLE_ADMIN@.len() == 5);
    assert(ROLE_SECRETARY@.len() == 9);
}

/// One stored account.
#[derive(Debug)]
pub struct User {
    pub id: String,
    pub username: String,
    pub password_hash: String,
    pub role: String,
    pub created_at: String,
    pub updated_at: String,
}

/// Mathematical value of a [`User`]: each field as a sequence of characters.
pub struct UserView {
    pub id: Seq<char>,
    pub username: Seq<char>,
    pub password_hash: Seq<char>,
    pub role: Seq<char>,
    pub created_at: Seq<char>,
    pub updated_at: Seq<char>,
}

impl View for User {
    type V = UserView;

    open spec fn view(&self) -> UserView {
        UserView {
            id: self.id@,
            username: self.username@,
            password_hash: self.password_hash@,
            role: self.role@,
            created_at: self.created_at@,
            updated_at: self.updated_at@,
        }
    }
}

/// What callers outside the store may see of an account: no password hash.
#[derive(Debug)]
pub struct UserResponse {
    pub id: String,
    pub username: String,
    pub role: String,
}

/// Mathematical value of a [`UserResponse`].
pub struct UserResponseView {
    pub id: Seq<char>,
    pub username: Seq<char>,
    pub role: Seq<char>,
}

impl View for UserResponse {
    type V = UserResponseView;

    open spec fn view(&self) -> UserResponseView {
        UserResponseView { id: self.id@, username: self.username@, role: self.role@ }
    }
}

/// The values of a run of responses.
pub open spec fn response_views(list: Seq<UserResponse>) -> Seq<UserResponseView> {
    list.map_values(|u: UserResponse| u@)
}

/// The public part of a stored row.
pub open spec fn public_view(u: UserView) -> UserResponseView {
    UserResponseView { id: u.id, username: u.username, role: u.role }
}

impl User {
    /// Copies out the fields that may be shown to callers.
    pub fn to_response(&self) -> (r: UserResponse)
        ensures
            r@ == public_view(self@),
    {
        UserResponse {
            id: self.id.clone(),
            username: self.username.clone(),
            role: self.role.clone(),
        }
    }
}

} // verus!
