//! Signing in: checking a password against its stored hash, and the claims
//! of a session.

use vstd::prelude::*;
use crate::errors::{Error, ErrorView};

verus! {

/// What `bcrypt::verify` answers for a password and a stored hash: whether
/// they match, or nothing where the hash cannot be read or the password
/// holds a NUL byte.
pub uninterp spec fn bcrypt_verdict(password: Seq<char>, hash: Seq<char>) -> Option<bool>;

/// Calls `bcrypt::verify`. Claimed of it: the answer depends on the password
/// and the hash alone. The hash must be ASCII: the call cuts it at fixed byte
/// offsets and panics where such a cut falls inside a character.
#[verifier::external_body]
fn bcrypt_verify(password: &str, hash: &str) -> (checked: Option<bool>)
    requires
        hash.is_ascii(),
    ensures
        checked == bcrypt_verdict(password@, hash@),
{
    bcrypt::verify(password, hash).ok()
}

/// Calls `bcrypt::hash`, which salts the password with fresh random bytes.
/// Claimed of it: a password that holds a NUL character is refused, and a
/// hash that comes back is ASCII and is one that `bcrypt::verify` accepts for
/// the same password. Which hash comes back is left open.
#[verifier::external_body]
fn bcrypt_hash(password: &str, cost: u32) -> (hashed: Option<String>)
    ensures
        password@.contains('\0') ==> hashed is None,
        hashed is Some ==> vstd::utf8::is_ascii_chars(hashed.unwrap()@),
        hashed is Some ==> bcrypt_verdict(password@, hashed.unwrap()@) == Some(true),
{
    bcrypt::hash(password, cost).ok()
}

/// Whether a request may sign in at all: one that already carries a session
/// is refused as `Unauthorized`.
pub fn admit_sign_in(signed_in: bool) -> (answer: Result<(), Error>)
    ensures
        match answer {
            Ok(_) => !signed_in,
            Err(e) => signed_in && e@ == ErrorView::Unauthorized,
        },
{
    if signed_in {
        Err(Error::Unauthorized)
    } else {
        Ok(())
    }
}

/// What a sign-in is answered with once the password has been checked.
pub open spec fn judge_password_spec(checked: Option<bool>) -> Result<(), ErrorView> {
    match checked {
        Some(true) => Ok(()),
        Some(false) => Err(ErrorView::Unauthorized),
        None => Err(ErrorView::InternalServerError),
    }
}

/// The answer to a sign-in, from the outcome of checking the password: a
/// match signs in, a mismatch is `Unauthorized`, and a check that could not
/// be made is an internal error.
pub fn judge_password(checked: Option<bool>) -> (answer: Result<(), Error>)
    ensures
        match answer {
            Ok(_) => judge_password_spec(checked) is Ok,
            Err(e) => judge_password_spec(checked) == Err::<(), ErrorView>(e@),
        },
{
    match checked {
        Some(true) => Ok(()),
        Some(false) => Err(Error::Unauthorized),
        None => Err(Error::InternalServerError),
    }
}

/// Checks `password` against the hash stored for an account. A stored hash
/// that is not ASCII is no hash at all and is answered like one that cannot
/// be read.
pub fn verify_password(password: &str, hash: &str) -> (answer: Result<(), Error>)
    ensures
        match answer {
            Ok(_) => hash.is_ascii() && judge_password_spec(bcrypt_verdict(password@, hash@))
                is Ok,
            Err(e) => if hash.is_ascii() {
                judge_password_spec(bcrypt_verdict(password@, hash@)) == Err::<(), ErrorView>(e@)
            } else {
                e@ == ErrorView::InternalServerError
            },
        },
{
    if !hash.is_ascii() {
        return Err(Error::InternalServerError);
    }
    judge_password(bcrypt_verify(password, hash))
}

/// Hashes the password of a new account. Its salt is random, so which hash
/// comes back is open; it is ASCII, and `verify_password` accepts it.
pub fn hash_password(password: &str) -> (hashed: Result<String, Error>)
    ensures
        match hashed {
            Ok(hash) => {
                &&& !password@.contains('\0')
                &&& hash.is_ascii()
                &&& bcrypt_verdict(password@, hash@) == Some(true)
                &&& judge_password_spec(bcrypt_verdict(password@, hash@)) is Ok
            },
            Err(e) => e@ == ErrorView::InternalServerError,
        },
{
    keep_hash(bcrypt_hash(password, HASH_COST))
}

/// How many rounds, as a power of two, a new password hash is made with.
pub const HASH_COST: u32 = 9;

/// The answer to a registration, from the outcome of hashing the password:
/// the hash to store, or an internal error where none could be made.
pub fn keep_hash(hashed: Option<String>) -> (kept: Result<String, Error>)
    ensures
        match kept {
            Ok(hash) => hashed == Some(hash),
            Err(e) => hashed is None && e@ == ErrorView::InternalServerError,
        },
{
    match hashed {
        Some(hash) => Ok(hash),
        None => Err(Error::InternalServerError),
    }
}

/// How long a session lasts from the moment it is issued or renewed: four
/// weeks, in seconds.
pub const SESSION_SECONDS: u64 = 2419200;

/// Who a session belongs to and until when it is good.
#[derive(Clone, Copy, Debug, PartialEq, Eq, Structural)]
pub struct Claims {
    pub userid: i64,
    /// The second, counted from the epoch, at which the session ends.
    pub exp: u64,
}

impl Claims {
    /// The claims of a session of `userid` that is issued or renewed at `now`.
    pub fn issued(userid: i64, now: u64) -> (claims: Claims)
        requires
            now + SESSION_SECONDS <= u64::MAX,
        ensures
            claims.userid == userid,
            claims.exp == now + SESSION_SECONDS,
    {
        Claims { userid, exp: now + SESSION_SECONDS }
    }
}

/// What a request's session token turned out to be.
#[derive(Clone, Copy, Debug, PartialEq, Eq, Structural)]
pub enum Token {
    /// The request carried none.
    Missing,
    /// It carried one that is forged, damaged or out of date.
    Rejected,
    /// It carried a good one with these claims.
    Valid(Claims),
}

/// What to do with a request's session.
#[derive(Clone, Copy, Debug, PartialEq, Eq, Structural)]
pub enum SessionStep {
    /// Refuse the request as `Unauthorized`; `forget` says whether the
    /// token is to be dropped from the client.
    Refuse { forget: bool },
    /// Serve the request as `claims.userid` and hand the client a token
    /// with the `renewed` claims.
    Serve { claims: Claims, renewed: Claims },
}

pub open spec fn session_step_spec(token: Token, now: u64) -> SessionStep {
    match token {
        Token::Missing => SessionStep::Refuse { forget: false },
        Token::Rejected => SessionStep::Refuse { forget: true },
        Token::Valid(claims) => SessionStep::Serve {
            claims,
            renewed: Claims { userid: claims.userid, exp: (now + SESSION_SECONDS) as u64 },
        },
    }
}

/// Decides what to do with a request's session: a bad token is dropped, a
/// good one is renewed for another full term from `now`.
pub fn session_step(token: Token, now: u64) -> (step: SessionStep)
    requires
        now + SESSION_SECONDS <= u64::MAX,
    ensures
        step == session_step_spec(token, now),
{
    match token {
        Token::Missing => SessionStep::Refuse { forget: false },
        Token::Rejected => SessionStep::Refuse { forget: true },
        Token::Valid(claims) => SessionStep::Serve {
            claims,
            renewed: Claims::issued(claims.userid, now),
        },
    }
}

} // verus!
