//! Registration, lookup and authentication of users.

use vstd::prelude::*;
use crate::errors::Error;
use crate::dao::page_of;
use crate::model::{CreateUserRequest, LoginRequest, Post, User};
use crate::util::Page;
use crate::store::Store;

verus! {

/// Cost parameters of the password hash; they are fixed and not for users to choose.
pub const SCRYPT_LOG_N: u8 = 14;

pub const SCRYPT_R: u32 = 8;

pub const SCRYPT_P: u32 = 1;

/// The user with key `user_id`, if there is one.
pub fn find_one(user_id: i32, conn: &Store) -> (found: Result<Option<User>, Error>)
    requires
        conn@.wf(),
    ensures
        found matches Ok(user) && user.deep_view() == conn@.users.by_id(user_id),
{
    Ok(conn.find_user_by_id(user_id))
}

/// Registers the user of `request` with `pw_hash`, the salted hash that the
/// credential hasher made of the request's password. Whether the password
/// was repeated correctly is not looked at here.
pub fn create_user(
    request: CreateUserRequest,
    pw_hash: String,
    conn: &mut Store,
) -> (created: Result<User, Error>)
    requires
        old(conn)@.wf(),
    ensures
        final(conn)@.wf(),
        match old(conn)@.insert_user_refusal(request.name@) {
            Some(e) => created == Err::<User, Error>(e) && final(conn)@ == old(conn)@,
            None => {
                &&& created matches Ok(user)
                &&& final(conn)@ == old(conn)@.with_user(request.name@, pw_hash@)
                &&& user@ == final(conn)@.users.rows.last()
            },
        },
{
    conn.insert_user(request.name, pw_hash)
}

/// The user with key `user_id`; `NotFound` if there is none.
pub fn find_by_id(user_id: i32, conn: &Store) -> (found: Result<User, Error>)
    requires
        conn@.wf(),
    ensures
        match conn@.users.by_id(user_id) {
            Some(row) => found matches Ok(user) && user@ == row,
            None => found == Err::<User, Error>(Error::NotFound),
        },
{
    match conn.find_user_by_id(user_id) {
        Some(user) => Ok(user),
        None => Err(Error::NotFound),
    }
}

/// The user named `username`, if there is one.
pub fn find_by_name(username: &str, conn: &Store) -> (found: Result<Option<User>, Error>)
    requires
        conn@.wf(),
    ensures
        found matches Ok(user) && user.deep_view() == conn@.users.by_name(username@),
{
    Ok(conn.find_user_by_name(username))
}

/// The name of the user with key `user_id`; `NotFound` if there is none.
pub fn get_name(user_id: i32, conn: &Store) -> (name: Result<String, Error>)
    requires
        conn@.wf(),
    ensures
        match conn@.users.by_id(user_id) {
            Some(row) => name matches Ok(text) && text@ == row.name,
            None => name == Err::<String, Error>(Error::NotFound),
        },
{
    match conn.find_user_by_id(user_id) {
        Some(user) => Ok(user.name),
        None => Err(Error::NotFound),
    }
}

/// Whether a login may pass, given the user found under the presented name
/// and what the credential hasher answered about the presented password and
/// that user's hash (`None` where it could not read the hash).
pub open spec fn admitted(candidate: Option<User>, answer: Option<bool>) -> bool {
    candidate is Some && answer == Some(true)
}

/// Decides a login. It passes only for a user that exists and whose password
/// the hasher confirmed; every other case fails with `InvalidCredentials`, so
/// that an unknown name and a wrong password cannot be told apart.
pub fn authenticate(candidate: Option<User>, answer: Option<bool>) -> (outcome: Result<User, Error>)
    ensures
        outcome == if admitted(candidate, answer) {
            Ok::<User, Error>(candidate.unwrap())
        } else {
            Err::<User, Error>(Error::InvalidCredentials)
        },
{
    match candidate {
        Some(user) => match answer {
            Some(true) => Ok(user),
            _ => Err(Error::InvalidCredentials),
        },
        None => Err(Error::InvalidCredentials),
    }
}

/// Looks up the user of `request` and lets `check` compare the request's
/// password with that user's hash. `check` stands for the credential hasher:
/// it takes the cleartext and the stored hash. It is not asked where no user
/// has the name.
pub fn login<F>(request: &LoginRequest, conn: &Store, check: F) -> (outcome: Result<User, Error>) where
    F: Fn(&str, &str) -> Option<bool>,
    requires
        conn@.wf(),
        forall|password: &str, hash: &str| call_requires(check, (password, hash)),
    ensures
        match conn@.users.by_name(request.name@) {
            None => outcome == Err::<User, Error>(Error::InvalidCredentials),
            Some(row) => match outcome {
                Ok(user) => user@ == row && exists|password: &str, hash: &str|
                    password@ == request.password@ && hash@ == row.pw_hash && #[trigger] call_ensures(
                        check,
                        (password, hash),
                        Some(true),
                    ),
                Err(e) => e == Error::InvalidCredentials && exists|password: &str, hash: &str, answer: Option<bool>|
                    password@ == request.password@ && hash@ == row.pw_hash && answer != Some(true)
                        && #[trigger] call_ensures(check, (password, hash), answer),
            },
        },
{
    match conn.find_user_by_name(request.name.as_str()) {
        Some(user) => {
            let answer = check(request.password.as_str(), user.pw_hash.as_str());
            authenticate(Some(user), answer)
        },
        None => Err(Error::InvalidCredentials),
    }
}

/// How many posts the page of a user shows.
pub const PROFILE_PAGE_SIZE: i64 = 20;

/// What the page of the user with key `user_id` shows: the user and the
/// first `PROFILE_PAGE_SIZE` of the user's published posts. `None` where no
/// user has the key.
pub fn profile(user_id: i32, conn: &Store) -> (shown: Result<Option<(User, Page<Post>)>, Error>)
    requires
        conn@.wf(),
    ensures
        match conn@.users.by_id(user_id) {
            None => shown matches Ok(None),
            Some(row) => {
                &&& shown matches Ok(Some(pair))
                &&& pair.0@ == row
                &&& pair.1.data.deep_view() == page_of(conn@.posts.listing(user_id), 0, PROFILE_PAGE_SIZE as int)
                &&& pair.1.current_page == 0
                &&& pair.1.num_pages == 0
                &&& pair.1.page_size == PROFILE_PAGE_SIZE
            },
        },
{
    match conn.find_user_by_id(user_id) {
        Some(user) => match crate::service::post::find_page(user_id, 0, PROFILE_PAGE_SIZE, conn) {
            Ok(page) => Ok(Some((user, page))),
            Err(e) => Err(e),
        },
        None => Ok(None),
    }
}

} // verus!
