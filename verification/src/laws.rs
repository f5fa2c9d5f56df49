//! What holds of the account operations taken together. Each statement is
//! over the values that the operations' own contracts speak of: the rows of
//! the store and the answers.

use crate::auth::{
    answered, approval, failed, creator_refusal, deactivation, deactivation_refusal, is_new_secretary,
    login_outcome, password_set, refusal, registration, secretary_row, MSG_INVALID_CREDENTIALS,
    MSG_LOGIN_SUCCESSFUL, MSG_SECRETARY_DEACTIVATED, MSG_USERNAME_EXISTS,
};
use crate::database::{
    admin_row, bootstrapped, lemma_reserved_usernames_differ, seeding, ADMIN_ONE_USERNAME,
    ADMIN_TWO_USERNAME,
};
use crate::password::{bcrypt_verify, mismatches, verifies};
use crate::store::{
    by_id, by_username, has_id, has_username, in_listing_order, insertion, is_listing_of,
    lemma_by_username_at, lemma_push_has, lemma_with_password_at, lemma_without_secretary,
    listed_before, position_of_id, rows_distinct, well_formed, with_password, without_secretary,
};
use crate::text::{lemma_bytes_lt_total, lemma_encoding_injective};
use crate::user::{
    lemma_roles_differ, public_view, UserResponseView, UserView, ROLE_ADMIN, ROLE_SECRETARY,
};
use vstd::prelude::*;
use vstd::seq_lib::to_multiset_remove;
use vstd::utf8::encode_utf8;

verus! {

/// The rows of a store stay distinct, and their roles known, under every
/// change that the library makes to a store: an insertion, the creation of a
/// secretary, the seeding of an administrator, a new password hash, a
/// deletion. So no username is ever stored twice, and no role is ever
/// written but the two known ones.
pub proof fn law_rows_stay_well_formed(
    rows: Seq<UserView>,
    user: UserView,
    id: Seq<char>,
    username: Seq<char>,
    password_hash: Seq<char>,
    at: Seq<char>,
)
    requires
        well_formed(rows),
    ensures
        insertion(rows, user) matches Ok(after) ==> well_formed(after),
        well_formed(registration(rows, secretary_row(id, username, password_hash, at)).0),
        seeding(rows, admin_row(id, username, password_hash, at)) matches Ok(after)
            ==> well_formed(after),
        well_formed(with_password(rows, id, password_hash, at)),
        well_formed(without_secretary(rows, id)),
{
    lemma_without_secretary(rows, id);
}

/// A login with the username of a stored account and a password that
/// verifies against its hash is granted, and the answer carries that
/// account's id, username and role and nothing else of it.
pub proof fn law_login_grants_correct_password(
    rows: Seq<UserView>,
    user: UserView,
    password: Seq<char>,
)
    requires
        by_username(rows, user.username) == Some(user),
        verifies(password, user.password_hash),
    ensures
        login_outcome(rows, user.username, password) == answered(
            approval(MSG_LOGIN_SUCCESSFUL@, Some(public_view(user))),
        ),
        public_view(user).id == user.id,
        public_view(user).username == user.username,
        public_view(user).role == user.role,
{
}

/// A login under a username that is not stored and a login with a wrong
/// password for one that is stored get the same answer, so an answer does
/// not tell whether a username exists.
pub proof fn law_login_refusals_alike(
    rows: Seq<UserView>,
    unknown: Seq<char>,
    any_password: Seq<char>,
    known: Seq<char>,
    wrong_password: Seq<char>,
)
    requires
        by_username(rows, unknown) is None,
        by_username(rows, known) matches Some(user) && mismatches(wrong_password, user.password_hash),
    ensures
        login_outcome(rows, unknown, any_password) == login_outcome(rows, known, wrong_password),
        login_outcome(rows, unknown, any_password) == answered(refusal(MSG_INVALID_CREDENTIALS@)),
{
}

/// A creator that is not stored, or is stored with another role than
/// administrator, is refused. (A refused creation leaves the store as it
/// was: `create_secretary_user` states so.)
pub proof fn law_only_admins_create(rows: Seq<UserView>, creator: Seq<char>)
    ensures
        creator_refusal(rows, creator) is None <==> (by_username(rows, creator) matches Some(user)
            && user.role == ROLE_ADMIN@),
        creator_refusal(rows, creator) matches Some(answer) ==> !answer.success,
{
}

/// Creating an account under a username that is taken is refused with the
/// message for it and changes no row.
pub proof fn law_taken_username_refused(
    rows: Seq<UserView>,
    id: Seq<char>,
    username: Seq<char>,
    password_hash: Seq<char>,
    created_at: Seq<char>,
)
    requires
        has_username(rows, username),
    ensures
        registration(rows, secretary_row(id, username, password_hash, created_at)) == (
            rows,
            Some(refusal(MSG_USERNAME_EXISTS@)),
        ),
{
}

/// An account that was created is stored as a secretary and shown as one,
/// and a login with the password it was created with is granted.
pub proof fn law_created_account_is_secretary(
    rows: Seq<UserView>,
    user: UserView,
    username: Seq<char>,
    password: Seq<char>,
)
    requires
        rows_distinct(rows),
        is_new_secretary(user, username, password),
        !has_username(rows, username),
        !has_id(rows, user.id),
    ensures
        registration(rows, user).0 == rows.push(user),
        registration(rows, user).1 matches Some(answer) && answer.success && (answer.user matches Some(
            shown,
        ) && shown.role == ROLE_SECRETARY@ && shown.username == username && shown.id == user.id),
        by_username(rows.push(user), username) == Some(user),
        login_outcome(rows.push(user), username, password) == answered(
            approval(MSG_LOGIN_SUCCESSFUL@, Some(public_view(user))),
        ),
{
    let after = rows.push(user);
    assert(rows_distinct(after)) by {
        assert forall|i: int, j: int| 0 <= i < j < after.len() implies (#[trigger] after[i]).username
            != (#[trigger] after[j]).username && after[i].id != after[j].id by {
            if j == rows.len() {
                assert(rows[i].username != username);
                assert(rows[i].id != user.id);
            }
        }
    }
    assert(after[rows.len() as int] == user);
    lemma_by_username_at(after, rows.len() as int);
}

/// After a password change the account logs in with any password that
/// verifies against the new hash, and the answer shows the account as
/// before. In particular it logs in with the new password.
pub proof fn law_login_follows_password_change(
    rows: Seq<UserView>,
    id: Seq<char>,
    password_hash: Seq<char>,
    changed_at: Seq<char>,
    password: Seq<char>,
)
    requires
        rows_distinct(rows),
        by_id(rows, id) is Some,
    ensures
        ({
            let user = by_id(rows, id)->0;
            let after = with_password(rows, id, password_hash, changed_at);
            login_outcome(after, user.username, password) == match bcrypt_verify(
                password,
                password_hash,
            ) {
                Ok(true) => answered(approval(MSG_LOGIN_SUCCESSFUL@, Some(public_view(user)))),
                Ok(false) => answered(refusal(MSG_INVALID_CREDENTIALS@)),
                Err(cause) => failed(cause),
            }
        }),
{
    let i = position_of_id(rows, id);
    let user = rows[i];
    let after = with_password(rows, id, password_hash, changed_at);
    assert(rows_distinct(after));
    assert(after[i].username == user.username);
    lemma_by_username_at(after, i);
}

/// After `change_password` has granted a change, a login with the new
/// password is granted; and a login with the old password is refused,
/// unless the old password verifies against the new hash as well (as it
/// does where the two passwords are the same).
pub proof fn law_password_change_then_login(
    before: Seq<UserView>,
    after: Seq<UserView>,
    id: Seq<char>,
    old_password: Seq<char>,
    new_password: Seq<char>,
)
    requires
        rows_distinct(before),
        password_set(before, after, id, new_password),
    ensures
        ({
            let user = by_id(before, id)->0;
            let changed = by_id(after, id)->0;
            &&& public_view(changed) == public_view(user)
            &&& login_outcome(after, user.username, new_password) == answered(
                approval(MSG_LOGIN_SUCCESSFUL@, Some(public_view(user))),
            )
            &&& mismatches(old_password, changed.password_hash) ==> login_outcome(after, user.username, old_password) == answered(
                refusal(MSG_INVALID_CREDENTIALS@),
            )
        }),
{
    let changed = by_id(after, id)->0;
    lemma_with_password_at(before, id, changed.password_hash, changed.updated_at);
    law_login_follows_password_change(
        before,
        id,
        changed.password_hash,
        changed.updated_at,
        new_password,
    );
    law_login_follows_password_change(
        before,
        id,
        changed.password_hash,
        changed.updated_at,
        old_password,
    );
}

/// An administrator is never removed: a deactivation aimed at an
/// administrator's id is refused, whoever asks, and leaves every row as it
/// was.
pub proof fn law_admins_are_not_deactivated(
    rows: Seq<UserView>,
    id: Seq<char>,
    admin_username: Seq<char>,
)
    requires
        rows_distinct(rows),
        by_id(rows, id) matches Some(target) && target.role == ROLE_ADMIN@,
    ensures
        deactivation(rows, id, admin_username).0 == rows,
        !deactivation(rows, id, admin_username).1.success,
        by_id(deactivation(rows, id, admin_username).0, id) == by_id(rows, id),
{
    lemma_roles_differ();
}

/// Whatever a deactivation is aimed at and whoever asks, an administrator
/// is found under its username afterwards, unchanged.
pub proof fn law_admins_stay_stored(
    rows: Seq<UserView>,
    id: Seq<char>,
    admin_username: Seq<char>,
    i: int,
)
    requires
        rows_distinct(rows),
        0 <= i < rows.len(),
        rows[i].role == ROLE_ADMIN@,
    ensures
        by_username(deactivation(rows, id, admin_username).0, rows[i].username) == Some(rows[i]),
{
    lemma_roles_differ();
    lemma_without_secretary(rows, id);
    let after = deactivation(rows, id, admin_username).0;
    if after == rows {
        lemma_by_username_at(rows, i);
    } else {
        let k = position_of_id(rows, id);
        assert(after == rows.remove(k));
        assert forall|x: int, y: int| 0 <= x < y < after.len() implies (#[trigger] after[x]).username
            != (#[trigger] after[y]).username && after[x].id != after[y].id by {
            let ox = if x < k { x } else { x + 1 };
            let oy = if y < k { y } else { y + 1 };
            assert(after[x] == rows[ox] && after[y] == rows[oy]);
        }
        if i < k {
            assert(after[i] == rows[i]);
            lemma_by_username_at(after, i);
        } else {
            assert(after[i - 1] == rows[i]);
            lemma_by_username_at(after, i - 1);
        }
    }
}

/// An administrator's deactivation of a secretary is granted and removes
/// that one row: the id is not found afterwards, a login under the
/// account's username is answered like one under an unknown username, and
/// every other row is as it was.
pub proof fn law_deactivated_secretary_is_gone(
    rows: Seq<UserView>,
    id: Seq<char>,
    admin_username: Seq<char>,
    password: Seq<char>,
)
    requires
        rows_distinct(rows),
        by_username(rows, admin_username) matches Some(requester) && requester.role == ROLE_ADMIN@,
        by_id(rows, id) matches Some(target) && target.role == ROLE_SECRETARY@,
    ensures
        ({
            let (after, answer) = deactivation(rows, id, admin_username);
            &&& answer == approval(MSG_SECRETARY_DEACTIVATED@, None)
            &&& after == rows.remove(position_of_id(rows, id))
            &&& by_id(after, id) is None
            &&& login_outcome(after, by_id(rows, id)->0.username, password) == answered(
                refusal(MSG_INVALID_CREDENTIALS@),
            )
        }),
{
    lemma_without_secretary(rows, id);
    let k = position_of_id(rows, id);
    let target = rows[k];
    let after = rows.remove(k);
    assert(deactivation_refusal(rows, id, admin_username) is None);
    assert forall|i: int| 0 <= i < after.len() implies (#[trigger] after[i]).id != id
        && after[i].username != target.username by {
        if i < k {
            assert(after[i] == rows[i]);
        } else {
            assert(after[i] == rows[i + 1]);
        }
    }
}

/// Of two entries with different roles or different usernames, one is listed
/// before the other.
pub proof fn lemma_listing_order_total(a: UserResponseView, b: UserResponseView)
    ensures
        listed_before(a, b) || listed_before(b, a) || (a.role == b.role && a.username
            == b.username),
{
    lemma_bytes_lt_total(encode_utf8(a.role), encode_utf8(b.role));
    lemma_bytes_lt_total(encode_utf8(a.username), encode_utf8(b.username));
    lemma_encoding_injective(a.role, b.role);
    lemma_encoding_injective(a.username, b.username);
}

/// Entries that share a username are the same entry.
pub open spec fn one_entry_per_username(list: Seq<UserResponseView>) -> bool {
    forall|i: int, j: int|
        0 <= i < list.len() && 0 <= j < list.len() && (#[trigger] list[i]).username
            == (#[trigger] list[j]).username ==> list[i] == list[j]
}

/// Two lists in listing order that hold the same entries, with one entry
/// for a username, are the same list.
proof fn lemma_ordered_lists_equal(a: Seq<UserResponseView>, b: Seq<UserResponseView>)
    requires
        a.to_multiset() == b.to_multiset(),
        in_listing_order(a),
        in_listing_order(b),
        one_entry_per_username(a),
    ensures
        a == b,
    decreases a.len(),
{
    a.to_multiset_ensures();
    b.to_multiset_ensures();
    if a.len() == 0 {
        assert(a =~= b);
    } else {
        assert(a.contains(a[0]));
        assert(b.contains(b[0]));
        assert(b.to_multiset().count(a[0]) > 0);
        assert(a.to_multiset().count(b[0]) > 0);
        let j = choose|j: int| 0 <= j < b.len() && b[j] == a[0];
        let i = choose|i: int| 0 <= i < a.len() && a[i] == b[0];
        if 0 < i && 0 < j {
            assert(!listed_before(a[i], a[0]));
            assert(!listed_before(b[j], b[0]));
            lemma_listing_order_total(a[0], b[0]);
        }
        assert(a[0] == b[0]);
        let rest_a = a.drop_first();
        let rest_b = b.drop_first();
        assert(rest_a =~= a.remove(0));
        assert(rest_b =~= b.remove(0));
        to_multiset_remove(a, 0);
        to_multiset_remove(b, 0);
        assert forall|x: int, y: int| 0 <= x < y < rest_a.len() implies !listed_before(
            #[trigger] rest_a[y],
            #[trigger] rest_a[x],
        ) by {
            assert(rest_a[x] == a[x + 1] && rest_a[y] == a[y + 1]);
        }
        assert forall|x: int, y: int| 0 <= x < y < rest_b.len() implies !listed_before(
            #[trigger] rest_b[y],
            #[trigger] rest_b[x],
        ) by {
            assert(rest_b[x] == b[x + 1] && rest_b[y] == b[y + 1]);
        }
        assert forall|x: int, y: int|
            0 <= x < rest_a.len() && 0 <= y < rest_a.len() && (#[trigger] rest_a[x]).username
                == (#[trigger] rest_a[y]).username implies rest_a[x] == rest_a[y] by {
            assert(rest_a[x] == a[x + 1] && rest_a[y] == a[y + 1]);
        }
        lemma_ordered_lists_equal(rest_a, rest_b);
        assert(a =~= seq![a[0]] + rest_a);
        assert(b =~= seq![b[0]] + rest_b);
    }
}

/// The rows of a store have one listing: the order by role and then by
/// username leaves no choice, since no two rows share a username.
pub proof fn law_listing_is_determined(
    rows: Seq<UserView>,
    a: Seq<UserResponseView>,
    b: Seq<UserResponseView>,
)
    requires
        rows_distinct(rows),
        is_listing_of(rows, a),
        is_listing_of(rows, b),
    ensures
        a == b,
{
    let shown = rows.map_values(|u: UserView| public_view(u));
    a.to_multiset_ensures();
    shown.to_multiset_ensures();
    assert forall|i: int, j: int|
        0 <= i < a.len() && 0 <= j < a.len() && (#[trigger] a[i]).username == (
        #[trigger] a[j]).username implies a[i] == a[j] by {
        assert(a.contains(a[i]));
        assert(a.contains(a[j]));
        assert(shown.to_multiset().count(a[i]) > 0);
        assert(shown.to_multiset().count(a[j]) > 0);
        let x = choose|x: int| 0 <= x < shown.len() && shown[x] == a[i];
        let y = choose|y: int| 0 <= y < shown.len() && shown[y] == a[j];
        assert(rows[x].username == rows[y].username);
        assert(x == y);
    }
    lemma_ordered_lists_equal(a, b);
}

/// A listing shows every stored account once and nothing else: as many
/// entries as rows, and an entry for a row's id, username and role exactly
/// where such a row is stored.
pub proof fn law_listing_shows_every_account(
    rows: Seq<UserView>,
    list: Seq<UserResponseView>,
    entry: UserResponseView,
)
    requires
        is_listing_of(rows, list),
    ensures
        list.len() == rows.len(),
        list.contains(entry) <==> exists|i: int|
            0 <= i < rows.len() && public_view(#[trigger] rows[i]) == entry,
{
    let shown = rows.map_values(|u: UserView| public_view(u));
    list.to_multiset_ensures();
    shown.to_multiset_ensures();
    assert(list.contains(entry) <==> shown.contains(entry)) by {
        assert(list.to_multiset().count(entry) == shown.to_multiset().count(entry));
    }
    if shown.contains(entry) {
        let i = choose|i: int| 0 <= i < shown.len() && shown[i] == entry;
        assert(public_view(rows[i]) == entry);
    }
    if exists|i: int| 0 <= i < rows.len() && public_view(#[trigger] rows[i]) == entry {
        let i = choose|i: int| 0 <= i < rows.len() && public_view(#[trigger] rows[i]) == entry;
        assert(shown[i] == entry);
    }
}

/// A row under one of the two reserved usernames.
pub open spec fn is_reserved(user: UserView) -> bool {
    user.username == ADMIN_ONE_USERNAME@ || user.username == ADMIN_TWO_USERNAME@
}

/// How many of the two reserved usernames `rows` holds.
pub open spec fn reserved_held(rows: Seq<UserView>) -> int {
    (if has_username(rows, ADMIN_ONE_USERNAME@) {
        1int
    } else {
        0int
    }) + (if has_username(rows, ADMIN_TWO_USERNAME@) {
        1int
    } else {
        0int
    })
}

/// Among distinct rows there are as many reserved rows as reserved usernames
/// are held.
proof fn lemma_reserved_count(rows: Seq<UserView>)
    requires
        rows_distinct(rows),
    ensures
        rows.filter(|u: UserView| is_reserved(u)).len() == reserved_held(rows),
    decreases rows.len(),
{
    reveal(Seq::filter);
    lemma_reserved_usernames_differ();
    if rows.len() > 0 {
        let front = rows.drop_last();
        let last = rows.last();
        assert(rows =~= front.push(last));
        lemma_reserved_count(front);
        lemma_push_has(front, last, ADMIN_ONE_USERNAME@, last.id);
        lemma_push_has(front, last, ADMIN_TWO_USERNAME@, last.id);
        if has_username(front, last.username) {
            let i = choose|i: int| 0 <= i < front.len() && (#[trigger] front[i]).username == last.username;
            assert(rows[i].username == rows[rows.len() - 1].username);
        }
    }
}

/// Once both reserved administrators are stored there are exactly two rows
/// under the reserved usernames, however often the bootstrap runs.
pub proof fn law_exactly_two_reserved(rows: Seq<UserView>)
    requires
        rows_distinct(rows),
        bootstrapped(rows),
    ensures
        rows.filter(|u: UserView| is_reserved(u)).len() == 2,
{
    lemma_reserved_count(rows);
}

} // verus!
