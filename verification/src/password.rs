//! Password hashing. The hashing itself is bcrypt's; this module states what
//! the rest of the library relies on.

use vstd::prelude::*;

verus! {

/// Work factor handed to bcrypt for every password this library stores.
pub const HASH_COST: u32 = 10;

/// The error type of the bcrypt crate, carried through as an opaque value.
#[verifier::external_type_specification]
#[verifier::external_body]
pub struct ExBcryptError(bcrypt::BcryptError);

/// What bcrypt's verification answers for a password and a stored hash:
/// `Ok(true)` where they match, `Ok(false)` where they do not, and where it
/// reports an error (a hash that is not in bcrypt's format, or one that
/// names a cost outside bcrypt's range) `Err` of the error's description.
pub uninterp spec fn bcrypt_verify(password: Seq<char>, hash: Seq<char>) -> Result<bool, Seq<char>>;

/// bcrypt reads `hash` and finds that `password` matches it.
pub open spec fn verifies(password: Seq<char>, hash: Seq<char>) -> bool {
    bcrypt_verify(password, hash) == Ok::<bool, Seq<char>>(true)
}

/// bcrypt reads `hash` and finds that `password` does not match it.
pub open spec fn mismatches(password: Seq<char>, hash: Seq<char>) -> bool {
    bcrypt_verify(password, hash) == Ok::<bool, Seq<char>>(false)
}

/// The character that stands for the decimal digit `d`.
pub open spec fn decimal_digit(d: int) -> char {
    seq!['0', '1', '2', '3', '4', '5', '6', '7', '8', '9'][d]
}

/// `hash` is written as bcrypt writes a hash made with the work factor
/// `cost`: 60 characters, with the factor as two decimal digits behind the
/// version tag, at places 4 and 5.
pub open spec fn names_cost(hash: Seq<char>, cost: u32) -> bool {
    &&& hash.len() == 60
    &&& hash[4] == decimal_digit(cost as int / 10)
    &&& hash[5] == decimal_digit(cost as int % 10)
}

/// Calls `bcrypt::verify` and, where it reports an error, takes the error's
/// description (its `Display` text). It is assumed, not proved, that the
/// answer is [`bcrypt_verify`] of the two texts: the function reads the salt
/// and the cost out of `hash`, hashes `password` again and compares, and
/// its errors describe what is wrong with `hash`, so answer and description
/// depend on nothing but the arguments.
#[verifier::external_body]
pub(crate) fn check_password(password: &str, hash: &str) -> (r: Result<bool, String>)
    ensures
        match r {
            Ok(matches) => bcrypt_verify(password@, hash@) == Ok::<bool, Seq<char>>(matches),
            Err(cause) => bcrypt_verify(password@, hash@) == Err::<bool, Seq<char>>(cause@),
        },
{
    match bcrypt::verify(password, hash) {
        Ok(matches) => Ok(matches),
        Err(error) => Err(error.to_string()),
    }
}

/// Calls `bcrypt::hash`, which salts from the operating system's random
/// source, so two calls on one password differ. It is assumed, not proved,
/// that a hash it hands out is one against which the same password
/// verifies, and that it is written with `cost` as its work factor. It
/// fails where the random source does, or where `cost` is outside bcrypt's
/// range.
#[verifier::external_body]
pub(crate) fn hash_password(password: &str, cost: u32) -> (r: Result<String, bcrypt::BcryptError>)
    ensures
        r matches Ok(hash) ==> verifies(password@, hash@),
        r matches Ok(hash) ==> names_cost(hash@, cost),
{
    bcrypt::hash(password, cost)
}

/// The description that bcrypt gives of one of its errors (its `Display`
/// text). Nothing is assumed of it: where the random source failed, the
/// text is the operating system's.
#[verifier::external_body]
pub(crate) fn bcrypt_error_text(error: &bcrypt::BcryptError) -> String {
    error.to_string()
}

} // verus!
