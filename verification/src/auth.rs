//! Who a request speaks for: the claims of a verified token, or the user
//! whose key a session cookie holds.

use vstd::prelude::*;
use crate::model::User;
use crate::store::Store;
use crate::text::{decimal_i32, decimal_text, id_text, lemma_read_what_was_written, read_id};

verus! {

/// Seconds for which a token is good after it was issued: 24 hours.
pub const TOKEN_TTL: i64 = 86_400;

/// The end of the life of a token issued at `now`.
pub open spec fn expiry(now: i64) -> i64 {
    if now + TOKEN_TTL <= i64::MAX {
        (now + TOKEN_TTL) as i64
    } else {
        i64::MAX
    }
}

/// The claims of a token. Signing a token and checking its signature are
/// done around this type; what it holds is taken to stem from a token whose
/// signature was found good.
#[derive(Debug, PartialEq, Eq)]
pub struct JwtToken {
    /// The key of the user, as decimal text.
    pub sub: String,
    /// Second at which the token was issued.
    pub iat: i64,
    /// Second from which the token is good.
    pub nbf: i64,
    /// Second from which the token is no longer good.
    pub exp: i64,
}

impl JwtToken {
    /// The user that the token speaks for at `now`: the key that `sub`
    /// writes, while the token has not expired.
    pub open spec fn spec_principal(&self, now: i64) -> Option<i32> {
        if now < self.exp {
            decimal_i32(self.sub@)
        } else {
            None
        }
    }

    /// The claims for the user with key `user_id`, issued at second `now`.
    pub fn issue(user_id: i32, now: i64) -> (token: JwtToken)
        ensures
            token.sub@ == decimal_text(user_id as int),
            token.iat == now,
            token.nbf == now,
            token.exp == expiry(now),
    {
        let exp = if now <= i64::MAX - TOKEN_TTL {
            now + TOKEN_TTL
        } else {
            i64::MAX
        };
        JwtToken { sub: id_text(user_id), iat: now, nbf: now, exp }
    }

    /// The user that the token speaks for at second `now`, if any.
    pub fn principal(&self, now: i64) -> (who: Option<i32>)
        ensures
            who == self.spec_principal(now),
    {
        if now < self.exp {
            read_id(self.sub.as_str())
        } else {
            None
        }
    }

    /// Whether the token speaks for the user with key `user_id` at second `now`.
    pub fn is_authenticated(&self, user_id: i32, now: i64) -> (yes: bool)
        ensures
            yes == (self.spec_principal(now) == Some(user_id)),
    {
        match self.principal(now) {
            Some(id) => id == user_id,
            None => false,
        }
    }

    /// A token speaks for the user it was issued to, and for nobody else,
    /// from its issue until its expiry, and for nobody from then on.
    pub proof fn lemma_issued_token(token: JwtToken, user_id: i32, issued: i64, now: i64)
        requires
            token.sub@ == decimal_text(user_id as int),
            token.exp == expiry(issued),
        ensures
            now < expiry(issued) ==> token.spec_principal(now) == Some(user_id),
            now >= expiry(issued) ==> token.spec_principal(now) is None,
    {
        lemma_read_what_was_written(user_id);
    }
}

/// The user that a request with this token speaks for at second `now`:
/// nobody without a token, else whom the token speaks for.
pub fn principal_of_token(token: Option<&JwtToken>, now: i64) -> (who: Option<i32>)
    ensures
        who == match token {
            Some(claims) => claims.spec_principal(now),
            None => None,
        },
{
    match token {
        Some(claims) => claims.principal(now),
        None => None,
    }
}

/// The user that a request with this session cookie speaks for: the user
/// of the session, if the store has that user.
pub fn principal_of_session(cookie: Option<&str>, conn: &Store) -> (who: Option<i32>)
    requires
        conn@.wf(),
    ensures
        who == match cookie {
            Some(value) => match decimal_i32(value@) {
                Some(id) => if conn@.users.by_id(id) is Some {
                    Some(id)
                } else {
                    None
                },
                None => None,
            },
            None => None,
        },
{
    match user_from_session(cookie, conn) {
        Some(user) => Some(user.id),
        None => None,
    }
}

/// What the session cookie of `user` holds: the user's key as decimal text.
pub fn session_cookie(user: &User) -> (value: String)
    ensures
        value@ == decimal_text(user.id as int),
{
    id_text(user.id)
}

/// The user of a session: the user whose key the cookie writes. `None`
/// without a cookie, for a cookie that writes no key, and for a key that no
/// user has.
pub fn user_from_session(cookie: Option<&str>, conn: &Store) -> (user: Option<User>)
    requires
        conn@.wf(),
    ensures
        user.deep_view() == match cookie {
            Some(value) => match decimal_i32(value@) {
                Some(id) => conn@.users.by_id(id),
                None => None,
            },
            None => None,
        },
{
    match cookie {
        Some(value) => match read_id(value) {
            Some(id) => conn.find_user_by_id(id),
            None => None,
        },
        None => None,
    }
}

} // verus!
