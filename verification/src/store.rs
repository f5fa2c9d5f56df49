//! The user table: rows in insertion order, looked up by username or id.

use crate::text::{lemma_bytes_lt_irreflexive, lemma_bytes_lt_transitive, str_eq, str_lt, text_lt};
use crate::user::{
    public_view, response_views, User, UserResponse, UserResponseView, UserView, ROLE_ADMIN,
    ROLE_SECRETARY,
};
use vstd::seq_lib::{to_multiset_build, to_multiset_remove};
use vstd::utf8::encode_utf8;
use vstd::prelude::*;

verus! {

/// Why the store refused an operation.
#[derive(Debug, Clone, Copy, PartialEq, Eq, Structural)]
pub enum StoreError {
    /// The row's role is none of the roles that the library knows.
    UnknownRole,
    /// A row with this username is already stored.
    DuplicateUsername,
    /// A row with this id is already stored.
    DuplicateId,
    /// No row has this id.
    NoSuchUser,
}

impl StoreError {
    /// The description of the error.
    pub open spec fn text(self) -> Seq<char> {
        match self {
            StoreError::UnknownRole => "the role is neither admin nor secretary"@,
            StoreError::DuplicateUsername => "a user with this username is already stored"@,
            StoreError::DuplicateId => "a user with this id is already stored"@,
            StoreError::NoSuchUser => "no user with this id is stored"@,
        }
    }

    /// The description of the error, for messages.
    pub fn message(&self) -> (r: String)
        ensures
            r@ == self.text(),
    {
        match self {
            StoreError::UnknownRole => "the role is neither admin nor secretary".to_owned(),
            StoreError::DuplicateUsername => "a user with this username is already stored".to_owned(),
            StoreError::DuplicateId => "a user with this id is already stored".to_owned(),
            StoreError::NoSuchUser => "no user with this id is stored".to_owned(),
        }
    }
}

/// No two rows share a username, and no two share an id.
pub open spec fn rows_distinct(rows: Seq<UserView>) -> bool {
    forall|i: int, j: int|
        0 <= i < j < rows.len() ==> (#[trigger] rows[i]).username != (#[trigger] rows[j]).username
            && rows[i].id != rows[j].id
}

/// The role is one of the two that the library knows.
pub open spec fn is_known_role(role: Seq<char>) -> bool {
    role == ROLE_ADMIN@ || role == ROLE_SECRETARY@
}

/// Every row has a known role.
pub open spec fn roles_known(rows: Seq<UserView>) -> bool {
    forall|i: int| 0 <= i < rows.len() ==> is_known_role((#[trigger] rows[i]).role)
}

/// What holds of the rows of every store: they are distinct, and their roles
/// are known.
pub open spec fn well_formed(rows: Seq<UserView>) -> bool {
    rows_distinct(rows) && roles_known(rows)
}

/// Some row has this username.
pub open spec fn has_username(rows: Seq<UserView>, username: Seq<char>) -> bool {
    exists|i: int| 0 <= i < rows.len() && (#[trigger] rows[i]).username == username
}

/// Some row has this id.
pub open spec fn has_id(rows: Seq<UserView>, id: Seq<char>) -> bool {
    exists|i: int| 0 <= i < rows.len() && (#[trigger] rows[i]).id == id
}

/// Where a row with this username stands, if there is one.
pub open spec fn position_of_username(rows: Seq<UserView>, username: Seq<char>) -> int {
    choose|i: int| 0 <= i < rows.len() && (#[trigger] rows[i]).username == username
}

/// The row with this username, if there is one. Among distinct rows there is
/// at most one.
pub open spec fn by_username(rows: Seq<UserView>, username: Seq<char>) -> Option<UserView> {
    if has_username(rows, username) {
        Some(rows[position_of_username(rows, username)])
    } else {
        None
    }
}

/// Where a row with this id stands, if there is one.
pub open spec fn position_of_id(rows: Seq<UserView>, id: Seq<char>) -> int {
    choose|i: int| 0 <= i < rows.len() && (#[trigger] rows[i]).id == id
}

/// The row with this id, if there is one. Among distinct rows there is at
/// most one.
pub open spec fn by_id(rows: Seq<UserView>, id: Seq<char>) -> Option<UserView> {
    if has_id(rows, id) {
        Some(rows[position_of_id(rows, id)])
    } else {
        None
    }
}

/// A username is held after a row was added exactly when it was held before
/// or is the new row's; likewise an id.
pub proof fn lemma_push_has(rows: Seq<UserView>, user: UserView, username: Seq<char>, id: Seq<char>)
    ensures
        has_username(rows.push(user), username) <==> has_username(rows, username) || user.username
            == username,
        has_id(rows.push(user), id) <==> has_id(rows, id) || user.id == id,
{
    let after = rows.push(user);
    if has_username(rows, username) {
        let i = choose|i: int| 0 <= i < rows.len() && (#[trigger] rows[i]).username == username;
        assert(after[i].username == username);
    }
    if user.username == username {
        assert(after[rows.len() as int].username == username);
    }
    if has_username(after, username) {
        let i = choose|i: int| 0 <= i < after.len() && (#[trigger] after[i]).username == username;
        if i < rows.len() {
            assert(rows[i].username == username);
        }
    }
    if has_id(rows, id) {
        let i = choose|i: int| 0 <= i < rows.len() && (#[trigger] rows[i]).id == id;
        assert(after[i].id == id);
    }
    if user.id == id {
        assert(after[rows.len() as int].id == id);
    }
    if has_id(after, id) {
        let i = choose|i: int| 0 <= i < after.len() && (#[trigger] after[i]).id == id;
        if i < rows.len() {
            assert(rows[i].id == id);
        }
    }
}

/// Among distinct rows, the row found under a row's own username is that row.
pub proof fn lemma_by_username_at(rows: Seq<UserView>, i: int)
    requires
        rows_distinct(rows),
        0 <= i < rows.len(),
    ensures
        position_of_username(rows, rows[i].username) == i,
        by_username(rows, rows[i].username) == Some(rows[i]),
{
    let k = position_of_username(rows, rows[i].username);
    assert(k == i);
}

/// Among distinct rows, the row found under a row's own id is that row.
pub proof fn lemma_by_id_at(rows: Seq<UserView>, i: int)
    requires
        rows_distinct(rows),
        0 <= i < rows.len(),
    ensures
        position_of_id(rows, rows[i].id) == i,
        by_id(rows, rows[i].id) == Some(rows[i]),
{
    let k = position_of_id(rows, rows[i].id);
    assert(k == i);
}

/// What inserting `user` does: the rows with `user` behind them, or why not.
pub open spec fn insertion(rows: Seq<UserView>, user: UserView) -> Result<Seq<UserView>, StoreError> {
    if !is_known_role(user.role) {
        Err(StoreError::UnknownRole)
    } else if has_username(rows, user.username) {
        Err(StoreError::DuplicateUsername)
    } else if has_id(rows, user.id) {
        Err(StoreError::DuplicateId)
    } else {
        Ok(rows.push(user))
    }
}

/// The rows after the row with this id got a new password hash, with the
/// time of the change; every other row and every other field as before.
pub open spec fn with_password(
    rows: Seq<UserView>,
    id: Seq<char>,
    password_hash: Seq<char>,
    changed_at: Seq<char>,
) -> Seq<UserView> {
    Seq::new(
        rows.len(),
        |i: int|
            if rows[i].id == id {
                UserView { password_hash: password_hash, updated_at: changed_at, ..rows[i] }
            } else {
                rows[i]
            },
    )
}

/// Among distinct rows, a new password hash for the row with this id leaves
/// the rows distinct, and the row found under the id afterwards is the old
/// one with the new hash and the time of the change.
pub proof fn lemma_with_password_at(
    rows: Seq<UserView>,
    id: Seq<char>,
    password_hash: Seq<char>,
    changed_at: Seq<char>,
)
    requires
        rows_distinct(rows),
        by_id(rows, id) is Some,
    ensures
        rows_distinct(with_password(rows, id, password_hash, changed_at)),
        by_id(with_password(rows, id, password_hash, changed_at), id) == Some(
            UserView { password_hash: password_hash, updated_at: changed_at, ..by_id(rows, id)->0 },
        ),
{
    let after = with_password(rows, id, password_hash, changed_at);
    let i = position_of_id(rows, id);
    assert(rows_distinct(after));
    assert(after[i].id == id);
    lemma_by_id_at(after, i);
}

/// A row that a request to delete the secretary with this id leaves alone:
/// one with another id, or one that is no secretary.
pub open spec fn survives_delete(user: UserView, id: Seq<char>) -> bool {
    !(user.id == id && user.role == ROLE_SECRETARY@)
}

/// The rows without the secretary that has this id.
pub open spec fn without_secretary(rows: Seq<UserView>, id: Seq<char>) -> Seq<UserView> {
    rows.filter(|u: UserView| survives_delete(u, id))
}

/// `a` is listed strictly before `b`: by role, and among equal roles by
/// username.
pub open spec fn listed_before(a: UserResponseView, b: UserResponseView) -> bool {
    text_lt(a.role, b.role) || (a.role == b.role && text_lt(a.username, b.username))
}

/// No entry of `list` stands behind one that it is listed before.
pub open spec fn in_listing_order(list: Seq<UserResponseView>) -> bool {
    forall|i: int, j: int|
        0 <= i < j < list.len() ==> !listed_before(#[trigger] list[j], #[trigger] list[i])
}

/// `list` is the listing of `rows`: the public part of every row, once for
/// each row, ordered by role and then by username.
pub open spec fn is_listing_of(rows: Seq<UserView>, list: Seq<UserResponseView>) -> bool {
    &&& list.to_multiset() == rows.map_values(|u: UserView| public_view(u)).to_multiset()
    &&& in_listing_order(list)
}

/// Nothing is listed before itself.
pub proof fn lemma_listed_before_irreflexive(a: UserResponseView)
    ensures
        !listed_before(a, a),
{
    lemma_bytes_lt_irreflexive(encode_utf8(a.role));
    lemma_bytes_lt_irreflexive(encode_utf8(a.username));
}

/// The listing order is transitive.
pub proof fn lemma_listed_before_transitive(
    a: UserResponseView,
    b: UserResponseView,
    c: UserResponseView,
)
    requires
        listed_before(a, b),
        listed_before(b, c),
    ensures
        listed_before(a, c),
{
    lemma_bytes_lt_irreflexive(encode_utf8(b.role));
    if text_lt(a.role, b.role) && text_lt(b.role, c.role) {
        lemma_bytes_lt_transitive(encode_utf8(a.role), encode_utf8(b.role), encode_utf8(c.role));
    }
    if a.role == b.role && b.role == c.role {
        lemma_bytes_lt_transitive(
            encode_utf8(a.username),
            encode_utf8(b.username),
            encode_utf8(c.username),
        );
    }
}

/// A filter that every element passes changes nothing.
proof fn lemma_filter_keeps_all<A>(s: Seq<A>, pred: spec_fn(A) -> bool)
    requires
        forall|i: int| 0 <= i < s.len() ==> pred(#[trigger] s[i]),
    ensures
        s.filter(pred) == s,
    decreases s.len(),
{
    reveal(Seq::filter);
    if s.len() > 0 {
        lemma_filter_keeps_all(s.drop_last(), pred);
        assert(s.drop_last().push(s.last()) =~= s);
    }
}

/// A filter that only the element at `i` fails removes that element.
proof fn lemma_filter_drops_one<A>(s: Seq<A>, pred: spec_fn(A) -> bool, i: int)
    requires
        0 <= i < s.len(),
        !pred(s[i]),
        forall|j: int| 0 <= j < s.len() && j != i ==> pred(#[trigger] s[j]),
    ensures
        s.filter(pred) == s.remove(i),
    decreases s.len(),
{
    reveal(Seq::filter);
    if i == s.len() - 1 {
        lemma_filter_keeps_all(s.drop_last(), pred);
        assert(s.remove(i) =~= s.drop_last());
    } else {
        lemma_filter_drops_one(s.drop_last(), pred, i);
        assert(s.drop_last().remove(i).push(s.last()) =~= s.remove(i));
    }
}

/// Among distinct rows a deletion removes the one row with this id if that
/// row is a secretary's, and nothing otherwise.
pub proof fn lemma_without_secretary(rows: Seq<UserView>, id: Seq<char>)
    requires
        rows_distinct(rows),
    ensures
        without_secretary(rows, id) == if by_id(rows, id) matches Some(user) && user.role
            == ROLE_SECRETARY@ {
            rows.remove(position_of_id(rows, id))
        } else {
            rows
        },
{
    let pred = |u: UserView| survives_delete(u, id);
    if by_id(rows, id) matches Some(user) && user.role == ROLE_SECRETARY@ {
        lemma_filter_drops_one(rows, pred, position_of_id(rows, id));
    } else {
        lemma_filter_keeps_all(rows, pred);
    }
}

/// Putting an element into a sequence adds it once to what the sequence holds.
proof fn lemma_insert_to_multiset<A>(s: Seq<A>, i: int, a: A)
    requires
        0 <= i <= s.len(),
    ensures
        s.insert(i, a).to_multiset() == s.to_multiset().insert(a),
{
    let t = s.insert(i, a);
    assert(t.remove(i) =~= s);
    to_multiset_remove(t, i);
    t.to_multiset_ensures();
    assert(t.contains(a)) by {
        assert(t[i] == a);
    }
    assert(t.to_multiset() =~= s.to_multiset().insert(a));
}

/// Whether `a` is listed strictly before `b`.
pub fn is_listed_before(a: &UserResponse, b: &UserResponse) -> (r: bool)
    ensures
        r == listed_before(a@, b@),
{
    str_lt(a.role.as_str(), b.role.as_str()) || (str_eq(a.role.as_str(), b.role.as_str())
        && str_lt(a.username.as_str(), b.username.as_str()))
}

/// The values of a run of stored records.
pub open spec fn row_views(users: Seq<User>) -> Seq<UserView> {
    users.map_values(|u: User| u@)
}

/// The stored users. Its value is the sequence of its rows, oldest first.
pub struct UserStore {
    users: Vec<User>,
}

impl View for UserStore {
    type V = Seq<UserView>;

    closed spec fn view(&self) -> Seq<UserView> {
        row_views(self.users@)
    }
}

impl UserStore {
    /// What holds of every store.
    #[verifier::type_invariant]
    pub open spec fn rows_well_formed(self) -> bool {
        well_formed(self@)
    }

    /// A store without rows.
    pub fn new() -> (s: UserStore)
        ensures
            s@ == Seq::<UserView>::empty(),
    {
        let s = UserStore { users: Vec::new() };
        assert(s@ =~= Seq::<UserView>::empty());
        s
    }

    /// How many rows are stored.
    pub fn len(&self) -> (n: usize)
        ensures
            n == self@.len(),
    {
        self.users.len()
    }

    /// The row at position `index`, counting from the oldest.
    pub fn get(&self, index: usize) -> (r: Option<&User>)
        ensures
            match r {
                Some(u) => index < self@.len() && u@ == self@[index as int],
                None => index >= self@.len(),
            },
    {
        if index < self.users.len() {
            Some(&self.users[index])
        } else {
            None
        }
    }

    /// Moves the rows out and leaves the store empty.
    fn take_rows(&mut self) -> (users: Vec<User>)
        ensures
            row_views(users@) == old(self)@,
            final(self)@ == Seq::<UserView>::empty(),
    {
        let mut users: Vec<User> = Vec::new();
        assert(row_views(users@) =~= Seq::<UserView>::empty());
        core::mem::swap(&mut self.users, &mut users);
        users
    }

    /// Makes `users` the rows of the store.
    fn put_rows(&mut self, users: Vec<User>)
        requires
            well_formed(row_views(users@)),
        ensures
            final(self)@ == row_views(users@),
    {
        self.users = users;
    }

    fn index_of_username(&self, username: &str) -> (r: Option<usize>)
        ensures
            match r {
                Some(i) => i < self@.len() && self@[i as int].username == username@,
                None => !has_username(self@, username@),
            },
    {
        let mut i: usize = 0;
        while i < self.users.len()
            invariant
                i <= self.users@.len(),
                forall|k: int| 0 <= k < i ==> (#[trigger] self@[k]).username != username@,
            decreases self.users@.len() - i,
        {
            if str_eq(self.users[i].username.as_str(), username) {
                return Some(i);
            }
            i += 1;
        }
        None
    }

    fn index_of_id(&self, id: &str) -> (r: Option<usize>)
        ensures
            match r {
                Some(i) => i < self@.len() && self@[i as int].id == id@,
                None => !has_id(self@, id@),
            },
    {
        let mut i: usize = 0;
        while i < self.users.len()
            invariant
                i <= self.users@.len(),
                forall|k: int| 0 <= k < i ==> (#[trigger] self@[k]).id != id@,
            decreases self.users@.len() - i,
        {
            if str_eq(self.users[i].id.as_str(), id) {
                return Some(i);
            }
            i += 1;
        }
        None
    }

    /// The row with this username.
    pub fn find_by_username(&self, username: &str) -> (r: Option<&User>)
        ensures
            match r {
                Some(u) => by_username(self@, username@) == Some(u@),
                None => by_username(self@, username@) is None,
            },
    {
        proof {
            use_type_invariant(self);
        }
        match self.index_of_username(username) {
            Some(i) => {
                proof {
                    lemma_by_username_at(self@, i as int);
                }
                Some(&self.users[i])
            },
            None => None,
        }
    }

    /// The row with this id.
    pub fn find_by_id(&self, id: &str) -> (r: Option<&User>)
        ensures
            match r {
                Some(u) => by_id(self@, id@) == Some(u@),
                None => by_id(self@, id@) is None,
            },
    {
        proof {
            use_type_invariant(self);
        }
        match self.index_of_id(id) {
            Some(i) => {
                proof {
                    lemma_by_id_at(self@, i as int);
                }
                Some(&self.users[i])
            },
            None => None,
        }
    }

    /// Stores `user` behind the rows that are there, unless its role is
    /// unknown or its username or its id is taken.
    pub fn insert(&mut self, user: User) -> (r: Result<(), StoreError>)
        ensures
            match insertion(old(self)@, user@) {
                Ok(rows) => r is Ok && final(self)@ == rows,
                Err(e) => r == Err::<(), StoreError>(e) && final(self)@ == old(self)@,
            },
    {
        proof {
            use_type_invariant(&*self);
        }
        if !str_eq(user.role.as_str(), ROLE_ADMIN) && !str_eq(user.role.as_str(), ROLE_SECRETARY) {
            return Err(StoreError::UnknownRole);
        }
        if self.index_of_username(user.username.as_str()).is_some() {
            return Err(StoreError::DuplicateUsername);
        }
        if self.index_of_id(user.id.as_str()).is_some() {
            return Err(StoreError::DuplicateId);
        }
        let ghost before = self@;
        let mut users = self.take_rows();
        users.push(user);
        assert(row_views(users@) =~= before.push(user@));
        self.put_rows(users);
        Ok(())
    }

    /// Replaces the password hash of the row with this id and notes when.
    pub fn update_password_hash(&mut self, id: &str, password_hash: String, changed_at: String) -> (r:
        Result<(), StoreError>)
        ensures
            match by_id(old(self)@, id@) {
                Some(_) => r is Ok && final(self)@ == with_password(
                    old(self)@,
                    id@,
                    password_hash@,
                    changed_at@,
                ),
                None => r == Err::<(), StoreError>(StoreError::NoSuchUser) && final(self)@ == old(
                    self,
                )@,
            },
    {
        proof {
            use_type_invariant(&*self);
        }
        match self.index_of_id(id) {
            None => Err(StoreError::NoSuchUser),
            Some(i) => {
                let ghost before = self@;
                let ghost after = with_password(before, id@, password_hash@, changed_at@);
                let mut users = self.take_rows();
                let mut user = users.remove(i);
                user.password_hash = password_hash;
                user.updated_at = changed_at;
                users.insert(i, user);
                assert(row_views(users@) =~= after);
                self.put_rows(users);
                Ok(())
            },
        }
    }

    /// Removes the row with this id if it is a secretary's, and says how many
    /// rows went: one or none.
    pub fn delete_secretary(&mut self, id: &str) -> (removed: usize)
        ensures
            final(self)@ == without_secretary(old(self)@, id@),
            removed == old(self)@.len() - final(self)@.len(),
            removed == 1 <==> (by_id(old(self)@, id@) matches Some(u) && u.role == ROLE_SECRETARY@),
            removed <= 1,
    {
        proof {
            use_type_invariant(&*self);
        }
        let ghost before = self@;
        proof {
            lemma_without_secretary(before, id@);
        }
        match self.index_of_id(id) {
            None => 0,
            Some(i) => {
                proof {
                    lemma_by_id_at(before, i as int);
                }
                if str_eq(self.users[i].role.as_str(), ROLE_SECRETARY) {
                    let mut users = self.take_rows();
                    let _ = users.remove(i);
                    assert(row_views(users@) =~= before.remove(i as int));
                    self.put_rows(users);
                    1
                } else {
                    0
                }
            },
        }
    }

    /// The public part of every row, ordered by role and then by username.
    pub fn list_all(&self) -> (list: Vec<UserResponse>)
        ensures
            is_listing_of(self@, response_views(list@)),
    {
        let ghost public = |u: UserView| public_view(u);
        let mut list: Vec<UserResponse> = Vec::new();
        let mut k: usize = 0;
        assert(response_views(list@) =~= Seq::<UserResponseView>::empty());
        assert(self@.take(0).map_values(public) =~= Seq::<UserResponseView>::empty());
        while k < self.users.len()
            invariant
                k <= self.users@.len(),
                public == |u: UserView| public_view(u),
                in_listing_order(response_views(list@)),
                response_views(list@).to_multiset() == self@.take(k as int).map_values(
                    public,
                ).to_multiset(),
            decreases self.users@.len() - k,
        {
            let entry = self.users[k].to_response();
            let mut at: usize = 0;
            while at < list.len() && !is_listed_before(&entry, &list[at])
                invariant
                    at <= list@.len(),
                    forall|i: int|
                        0 <= i < at ==> !listed_before(entry@, #[trigger] response_views(list@)[i]),
                decreases list@.len() - at,
            {
                at += 1;
            }
            proof {
                let old_list = response_views(list@);
                let new_list = old_list.insert(at as int, entry@);
                assert forall|i: int, j: int| 0 <= i < j < new_list.len() implies !listed_before(
                    #[trigger] new_list[j],
                    #[trigger] new_list[i],
                ) by {
                    if i == at {
                        // behind the new entry stand `old_list[at..]`
                        if listed_before(new_list[j], entry@) {
                            lemma_listed_before_transitive(new_list[j], entry@, old_list[at as int]);
                            lemma_listed_before_irreflexive(old_list[at as int]);
                        }
                    } else if j == at {
                    } else {
                        let oi = if i < at { i } else { i - 1 };
                        let oj = if j < at { j } else { j - 1 };
                        assert(new_list[i] == old_list[oi]);
                        assert(new_list[j] == old_list[oj]);
                    }
                }
                lemma_insert_to_multiset(old_list, at as int, entry@);
                let rows = self@.take(k as int).map_values(public);
                assert(self@.take(k + 1).map_values(public) =~= rows.push(entry@));
                to_multiset_build(rows, entry@);
                assert(response_views(list@.insert(at as int, entry)) =~= new_list);
            }
            list.insert(at, entry);
            k += 1;
        }
        assert(self@.take(k as int) =~= self@);
        list
    }
}

} // verus!
