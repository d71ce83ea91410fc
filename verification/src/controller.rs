//! What each handler of the JSON interface answers, given the parts of the
//! request that it reads.

use vstd::prelude::*;
use crate::auth::JwtToken;
use crate::dao::{page_of, PostTable};
use crate::errors::Error;
use crate::model::{spaced, CreatePostRequest, CreateUserRequest, LoginRequest, Post, User};
use crate::service::post::{capped, may_edit, rendered};
use crate::store::Store;
use crate::text::{decimal_i32, decimal_i64, decimal_text, parse_i64, read_id};
use crate::util::{JsonResponse, Page, RemoteRendering};

verus! {

/// The largest page size that a listing grants.
pub const MAX_QUERY_LEN: i64 = 50;

/// The page size of a listing where the request names none.
pub const DEFAULT_QUERY_LEN: i64 = 25;

/// An answer: the HTTP status and the body that goes with it.
#[derive(Debug, PartialEq, Eq)]
pub struct Reply<T> {
    pub status: u16,
    pub body: JsonResponse<T, Error>,
}

impl<T> Reply<T> {
    /// The payload of a success, if the answer is one.
    pub open spec fn payload(self) -> Option<T> {
        match self.body {
            JsonResponse::Result(value) => Some(value),
            JsonResponse::Error(_) => None,
        }
    }

    /// The answer to a failure: the error, under the status of its kind.
    pub open spec fn refusal(error: Error) -> Reply<T> {
        Reply { status: error.spec_status_code(), body: JsonResponse::Error(error) }
    }

    /// The answer to an outcome: the payload under `ok_status`, or the error
    /// under the status of its kind.
    pub fn of(outcome: Result<T, Error>, ok_status: u16) -> (reply: Reply<T>)
        ensures
            reply == match outcome {
                Ok(value) => (Reply { status: ok_status, body: JsonResponse::Result(value) }),
                Err(error) => Self::refusal(error),
            },
    {
        match outcome {
            Ok(value) => Reply { status: ok_status, body: JsonResponse::Result(value) },
            Err(error) => Reply { status: error.status_code(), body: JsonResponse::Error(error) },
        }
    }
}

/// The key that a parameter of the path writes, if the path has the
/// parameter and it writes a key.
pub open spec fn spec_path_param(raw: Option<&str>) -> Option<i32> {
    match raw {
        Some(text) => decimal_i32(text@),
        None => None,
    }
}

#[verifier::when_used_as_spec(spec_path_param)]
pub fn path_param(raw: Option<&str>) -> (id: Option<i32>)
    ensures
        id == spec_path_param(raw),
{
    match raw {
        Some(text) => read_id(text),
        None => None,
    }
}

/// The number that a parameter of the query string writes, if the query has
/// the parameter and it writes a number.
pub open spec fn spec_url_param(raw: Option<&str>) -> Option<i64> {
    match raw {
        Some(text) => decimal_i64(text@),
        None => None,
    }
}

#[verifier::when_used_as_spec(spec_url_param)]
pub fn url_param(raw: Option<&str>) -> (number: Option<i64>)
    ensures
        number == spec_url_param(raw),
{
    match raw {
        Some(text) => match parse_i64(text) {
            Ok(number) => Some(number),
            Err(_) => None,
        },
        None => None,
    }
}

/// Whether a request that speaks for `principal` may act for the user with
/// key `user_id`: it speaks for somebody, and for that user.
pub open spec fn acts_for(principal: Option<i32>, user_id: i32) -> bool {
    principal == Some(user_id)
}

/// Whether `principal` is the user with key `user_id`.
fn speaks_for(principal: Option<i32>, user_id: i32) -> (yes: bool)
    ensures
        yes == acts_for(principal, user_id),
{
    match principal {
        Some(id) => id == user_id,
        None => false,
    }
}

/// The handlers that concern users.
pub struct UserController;

impl UserController {
    /// Answers a request for a token. Without readable credentials:
    /// `ValidationError`. For a name that no user has:
    /// `InvalidCredentials`. Else `check`, which stands for the credential
    /// hasher, is asked about the presented password and the stored hash:
    /// where it confirms, status 200 with the claims for the user, issued
    /// at second `now`; where it does not, `InvalidCredentials`.
    pub fn make_jwt_token<F>(
        credentials: Option<LoginRequest>,
        conn: &Store,
        check: F,
        now: i64,
    ) -> (reply: Reply<JwtToken>) where F: Fn(&str, &str) -> Option<bool>
        requires
            conn@.wf(),
            forall|password: &str, hash: &str| call_requires(check, (password, hash)),
        ensures
            credentials is None ==> reply == Reply::<JwtToken>::refusal(Error::ValidationError),
            credentials matches Some(request) ==> match conn@.users.by_name(request.name@) {
                None => reply == Reply::<JwtToken>::refusal(Error::InvalidCredentials),
                Some(row) => match reply.payload() {
                    Some(token) => {
                        &&& reply.status == 200
                        &&& token.sub@ == decimal_text(row.id as int)
                        &&& token.iat == now
                        &&& token.nbf == now
                        &&& token.exp == crate::auth::expiry(now)
                        &&& exists|password: &str, hash: &str|
                            password@ == request.password@ && hash@ == row.pw_hash && #[trigger] call_ensures(
                                check,
                                (password, hash),
                                Some(true),
                            )
                    },
                    None => {
                        &&& reply == Reply::<JwtToken>::refusal(Error::InvalidCredentials)
                        &&& exists|password: &str, hash: &str, answer: Option<bool>|
                            password@ == request.password@ && hash@ == row.pw_hash && answer != Some(true)
                                && #[trigger] call_ensures(check, (password, hash), answer)
                    },
                },
            },
    {
        match credentials {
            Some(request) => {
                match crate::service::user::login(&request, conn, check) {
                    Ok(user) => Reply::of(Ok(JwtToken::issue(user.id, now)), 200),
                    Err(e) => Reply::of(Err(e), 200),
                }
            },
            None => Reply::of(Err(Error::ValidationError), 200),
        }
    }

    /// Answers a registration: status 201 with the new user, or the error
    /// of the store. Without a readable request: `ValidationError`.
    pub fn create_user(
        request: Option<CreateUserRequest>,
        pw_hash: String,
        conn: &mut Store,
    ) -> (reply: Reply<User>)
        requires
            old(conn)@.wf(),
        ensures
            final(conn)@.wf(),
            match request {
                None => reply == Reply::<User>::refusal(Error::ValidationError) && final(conn)@ == old(conn)@,
                Some(body) => match old(conn)@.insert_user_refusal(body.name@) {
                    Some(e) => reply == Reply::<User>::refusal(e) && final(conn)@ == old(conn)@,
                    None => {
                        &&& reply.status == 201
                        &&& reply.payload() matches Some(user)
                        &&& final(conn)@ == old(conn)@.with_user(body.name@, pw_hash@)
                        &&& user@ == final(conn)@.users.rows.last()
                    },
                },
            },
    {
        match request {
            Some(body) => Reply::of(crate::service::user::create_user(body, pw_hash, conn), 201),
            None => Reply::of(Err(Error::ValidationError), 201),
        }
    }

    /// Answers a request for the user that the request itself speaks for:
    /// status 200 with the user of the session, or `Unauthorized` without one.
    pub fn current(session_user: Option<User>) -> (reply: Reply<User>)
        ensures
            reply == match session_user {
                Some(user) => (Reply { status: 200, body: JsonResponse::Result(user) }),
                None => Reply::<User>::refusal(Error::Unauthorized),
            },
    {
        match session_user {
            Some(user) => Reply::of(Ok(user), 200),
            None => Reply::of(Err(Error::Unauthorized), 200),
        }
    }

    /// Answers a request for the user with the key of the path, from a
    /// request that speaks for `principal`. Without that key:
    /// `ValidationError`. Unless the request may act for that user:
    /// `Unauthorized`. Else status 200 with the user, if there is one.
    pub fn get_user(user_id: Option<i32>, principal: Option<i32>, conn: &Store) -> (reply: Reply<Option<User>>)
        requires
            conn@.wf(),
        ensures
            match user_id {
                None => reply == Reply::<Option<User>>::refusal(Error::ValidationError),
                Some(id) => if !acts_for(principal, id) {
                    reply == Reply::<Option<User>>::refusal(Error::Unauthorized)
                } else {
                    &&& reply.status == 200
                    &&& reply.payload() matches Some(found)
                    &&& found.deep_view() == conn@.users.by_id(id)
                },
            },
    {
        let id = match user_id {
            Some(id) => id,
            None => {
                return Reply::of(Err(Error::ValidationError), 200);
            },
        };
        if speaks_for(principal, id) {
            Reply::of(crate::service::user::find_one(id, conn), 200)
        } else {
            Reply::of(Err(Error::Unauthorized), 200)
        }
    }

    /// Answers a request to revise a post, from a request that speaks for
    /// `principal`. Without both keys of the path and a readable post:
    /// `ValidationError`. Unless the request may act for the user of the
    /// path: `Unauthorized`. Unless that user may edit the post under the
    /// key of the path: `Forbidden`. Else status 200 with the revised post,
    /// or `NotFound` where no post has the key. The store changes only
    /// where the post is revised.
    pub fn edit_post(
        user_id: Option<i32>,
        post_id: Option<i32>,
        post: Option<Post>,
        principal: Option<i32>,
        conn: &mut Store,
    ) -> (reply: Reply<Post>)
        requires
            old(conn)@.wf(),
        ensures
            final(conn)@.wf(),
            match (user_id, post_id, post) {
                (Some(user), Some(key), Some(body)) => if !acts_for(principal, user) {
                    reply == Reply::<Post>::refusal(Error::Unauthorized) && final(conn)@ == old(conn)@
                } else if !may_edit(&body, key, user) {
                    reply == Reply::<Post>::refusal(Error::Forbidden) && final(conn)@ == old(conn)@
                } else {
                    match old(conn)@.posts.by_id(key) {
                        Some(stored) => {
                            &&& reply.status == 200
                            &&& reply.payload() matches Some(row)
                            &&& row@ == PostTable::revised(stored, body@)
                            &&& final(conn)@ == old(conn)@.with_revised_post(body@)
                        },
                        None => reply == Reply::<Post>::refusal(Error::NotFound) && final(conn)@ == old(conn)@,
                    }
                },
                _ => reply == Reply::<Post>::refusal(Error::ValidationError) && final(conn)@ == old(conn)@,
            },
    {
        let (user, key, body) = match (user_id, post_id, post) {
            (Some(user), Some(key), Some(body)) => (user, key, body),
            _ => {
                return Reply::of(Err(Error::ValidationError), 200);
            },
        };
        if !speaks_for(principal, user) {
            return Reply::of(Err(Error::Unauthorized), 200);
        }
        Reply::of(crate::service::post::edit_post(&body, key, user, conn), 200)
    }
}

/// The handlers that concern posts.
pub struct PostController;

impl PostController {
    /// Answers a request for one post of a user. Without both keys of the
    /// path: `ValidationError`. Else status 200 with the post, if the user
    /// owns a post with that key.
    pub fn get_post(post_id: Option<i32>, user_id: Option<i32>, conn: &Store) -> (reply: Reply<Option<Post>>)
        requires
            conn@.wf(),
        ensures
            match (post_id, user_id) {
                (Some(key), Some(user)) => {
                    &&& reply.status == 200
                    &&& reply.payload() matches Some(found)
                    &&& found.deep_view() == conn@.post_of_owner(key, user)
                },
                _ => reply == Reply::<Option<Post>>::refusal(Error::ValidationError),
            },
    {
        match (post_id, user_id) {
            (Some(key), Some(user)) => Reply::of(crate::service::post::find_one_of(key, user, conn), 200),
            _ => Reply::of(Err(Error::ValidationError), 200),
        }
    }

    /// Answers a request to add a post, from a request that speaks for
    /// `principal`. Without a readable post and the key of the path:
    /// `ValidationError`. Unless the request may act for the user of the
    /// path: `Unauthorized`. Unless the post is to belong to that user:
    /// `Forbidden`. Else the content is rendered and the post stored:
    /// status 201 with the stored post, or the error of the store. The
    /// store changes only where the post is stored.
    pub fn add_post(
        request: Option<CreatePostRequest>,
        remote: RemoteRendering,
        user_id: Option<i32>,
        principal: Option<i32>,
        conn: &mut Store,
    ) -> (reply: Reply<Post>)
        requires
            old(conn)@.wf(),
        ensures
            final(conn)@.wf(),
            match (request, user_id) {
                (Some(body), Some(user)) => if !acts_for(principal, user) {
                    reply == Reply::<Post>::refusal(Error::Unauthorized) && final(conn)@ == old(conn)@
                } else if body.owner_id != user {
                    reply == Reply::<Post>::refusal(Error::Forbidden) && final(conn)@ == old(conn)@
                } else {
                    match old(conn)@.insert_post_refusal(body@) {
                        Some(e) => reply == Reply::<Post>::refusal(e) && final(conn)@ == old(conn)@,
                        None => {
                            &&& reply.status == 201
                            &&& reply.payload() matches Some(stored)
                            &&& final(conn)@ == old(conn)@.with_post(rendered(body@, remote))
                            &&& stored@ == final(conn)@.posts.rows.last()
                        },
                    }
                },
                _ => reply == Reply::<Post>::refusal(Error::ValidationError) && final(conn)@ == old(conn)@,
            },
    {
        let (body, user) = match (request, user_id) {
            (Some(body), Some(user)) => (body, user),
            _ => {
                return Reply::of(Err(Error::ValidationError), 201);
            },
        };
        if !speaks_for(principal, user) {
            return Reply::of(Err(Error::Unauthorized), 201);
        }
        if body.owner_id != user {
            return Reply::of(Err(Error::Forbidden), 201);
        }
        Reply::of(crate::service::post::create_post(body, remote, conn), 201)
    }

    /// Answers a request to open the editor on a post, from a request that
    /// speaks for `principal`. Unless the request speaks for somebody:
    /// `Unauthorized`. Without the key of the path: `ValidationError`. Else
    /// status 200 with the post and its tags in one line, if there is a
    /// post with the key; whose post it is, is not looked at.
    pub fn editor(
        post_id: Option<i32>,
        principal: Option<i32>,
        conn: &Store,
    ) -> (reply: Reply<Option<(Post, String)>>)
        requires
            conn@.wf(),
        ensures
            if principal is None {
                reply == Reply::<Option<(Post, String)>>::refusal(Error::Unauthorized)
            } else if post_id is None {
                reply == Reply::<Option<(Post, String)>>::refusal(Error::ValidationError)
            } else {
                &&& reply.status == 200
                &&& reply.payload() matches Some(found)
                &&& match conn@.posts.by_id(post_id.unwrap()) {
                    Some(row) => found matches Some(pair) && pair.0@ == row && pair.1@ == spaced(row.tags),
                    None => found is None,
                }
            },
    {
        if principal.is_none() {
            return Reply::of(Err(Error::Unauthorized), 200);
        }
        let key = match post_id {
            Some(key) => key,
            None => {
                return Reply::of(Err(Error::ValidationError), 200);
            },
        };
        match conn.find_post_by_id(key) {
            Some(post) => {
                let line = post.tags_line();
                Reply::of(Ok(Some((post, line))), 200)
            },
            None => Reply::of(Ok(None), 200),
        }
    }

    /// Answers a request for a page of the posts of a user. Without the key
    /// of the path: `ValidationError`. A page number that the query does not
    /// give, or gives unreadably, is 0; a page size likewise is
    /// `DEFAULT_QUERY_LEN`; a size above `MAX_QUERY_LEN` is cut down to it.
    /// A negative number or size: `ValidationError`. Else status 200 with
    /// the page.
    pub fn get_posts(
        user_id: Option<i32>,
        page: Option<i64>,
        page_size: Option<i64>,
        conn: &Store,
    ) -> (reply: Reply<Page<Post>>)
        ensures
            match user_id {
                None => reply == Reply::<Page<Post>>::refusal(Error::ValidationError),
                Some(user) => {
                    let number = match page {
                        Some(n) => n,
                        None => 0,
                    };
                    let size = match page_size {
                        Some(n) => n,
                        None => DEFAULT_QUERY_LEN,
                    };
                    if number < 0 || size < 0 {
                        reply == Reply::<Page<Post>>::refusal(Error::ValidationError)
                    } else {
                        &&& reply.status == 200
                        &&& reply.payload() matches Some(p)
                        &&& p.data.deep_view() == page_of(
                            conn@.posts.listing(user),
                            number as int,
                            capped(size) as int,
                        )
                        &&& p.data.len() <= MAX_QUERY_LEN
                        &&& p.current_page == number
                        &&& p.num_pages == 0
                        &&& p.page_size == capped(size)
                    }
                },
            },
    {
        let user = match user_id {
            Some(user) => user,
            None => {
                return Reply::of(Err(Error::ValidationError), 200);
            },
        };
        let size = match page_size {
            Some(n) => n,
            None => DEFAULT_QUERY_LEN,
        };
        let number = match page {
            Some(n) => n,
            None => 0,
        };
        let size = if size <= MAX_QUERY_LEN {
            size
        } else {
            MAX_QUERY_LEN
        };
        Reply::of(crate::service::post::find_page(user, number, size, conn), 200)
    }
}

} // verus!
