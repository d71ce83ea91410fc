//! The entities of the blog and the requests that create them.

use std::fmt::Write;
use vstd::prelude::*;
use crate::util::{commonmark_html, markdown_to_html, RemoteRendering};

verus! {

/// An instant in UTC, as microseconds since 1970-01-01T00:00:00.
#[derive(Clone, Copy, Debug, PartialEq, Eq, Structural)]
pub struct Timestamp {
    pub micros: i64,
}

/// What a [`User`] is to the contracts of this crate.
pub struct UserView {
    pub id: i32,
    pub name: Seq<char>,
    pub pw_hash: Seq<char>,
}

/// A registered user. The password is held only as a salted hash.
#[derive(Debug, PartialEq, Eq)]
pub struct User {
    pub name: String,
    pub pw_hash: String,
    pub id: i32,
}

impl View for User {
    type V = UserView;

    open spec fn view(&self) -> UserView {
        UserView { id: self.id, name: self.name@, pw_hash: self.pw_hash@ }
    }
}

impl DeepView for User {
    type V = UserView;

    open spec fn deep_view(&self) -> UserView {
        self@
    }
}

impl Clone for User {
    fn clone(&self) -> (copy: User)
        ensures
            copy@ == self@,
    {
        User { name: self.name.clone(), pw_hash: self.pw_hash.clone(), id: self.id }
    }
}

impl User {
    /// Whether `cleartext_pw` is the password of the user, as `check` says:
    /// `check` stands for the credential hasher and takes the cleartext and
    /// the stored hash. A hash that it cannot read counts as a mismatch.
    pub fn verify_password<F>(&self, cleartext_pw: &str, check: F) -> (fits: bool) where
        F: Fn(&str, &str) -> Option<bool>,
        requires
            forall|password: &str, hash: &str| call_requires(check, (password, hash)),
        ensures
            exists|password: &str, hash: &str, answer: Option<bool>|
                password@ == cleartext_pw@ && hash@ == self.pw_hash@ && fits == (answer == Some(true))
                    && #[trigger] call_ensures(check, (password, hash), answer),
    {
        match check(cleartext_pw, self.pw_hash.as_str()) {
            Some(fits) => fits,
            None => false,
        }
    }
}

/// What a [`Post`] is to the contracts of this crate.
pub struct PostView {
    pub id: i32,
    pub title: Seq<char>,
    pub content: Seq<char>,
    pub created_on: Timestamp,
    pub owner_id: i32,
    pub tags: Seq<Seq<char>>,
    pub published: bool,
}

impl PostView {
    /// True if `tag` is one of the post's tags, compared character by character.
    pub open spec fn has_tag(self, tag: Seq<char>) -> bool {
        self.tags.contains(tag)
    }
}

/// The texts of `parts` in one line, a space between each two.
pub open spec fn spaced(parts: Seq<Seq<char>>) -> Seq<char>
    decreases parts.len(),
{
    if parts.len() == 0 {
        Seq::empty()
    } else if parts.len() == 1 {
        parts[0]
    } else {
        spaced(parts.drop_last()) + seq![' '] + parts.last()
    }
}

/// A post. `content` is HTML; `tags` keeps the order in which they were given.
#[derive(Debug, PartialEq, Eq)]
pub struct Post {
    pub title: String,
    pub content: String,
    pub id: i32,
    pub created_on: Timestamp,
    pub owner_id: i32,
    pub tags: Vec<String>,
    pub published: bool,
}

impl View for Post {
    type V = PostView;

    open spec fn view(&self) -> PostView {
        PostView {
            id: self.id,
            title: self.title@,
            content: self.content@,
            created_on: self.created_on,
            owner_id: self.owner_id,
            tags: self.tags.deep_view(),
            published: self.published,
        }
    }
}

impl DeepView for Post {
    type V = PostView;

    open spec fn deep_view(&self) -> PostView {
        self@
    }
}

/// A copy of a list of strings, element by element.
pub fn clone_strings(items: &Vec<String>) -> (copy: Vec<String>)
    ensures
        copy.deep_view() == items.deep_view(),
{
    let mut copy: Vec<String> = Vec::new();
    let mut i: usize = 0;
    while i < items.len()
        invariant
            i <= items.len(),
            copy.len() == i,
            forall|j: int| 0 <= j < i ==> copy[j]@ == items[j]@,
        decreases items.len() - i,
    {
        copy.push(items[i].clone());
        i += 1;
    }
    copy
}

impl Clone for Post {
    fn clone(&self) -> (copy: Post)
        ensures
            copy@ == self@,
    {
        Post {
            title: self.title.clone(),
            content: self.content.clone(),
            id: self.id,
            created_on: self.created_on,
            owner_id: self.owner_id,
            tags: clone_strings(&self.tags),
            published: self.published,
        }
    }
}

/// The instant `micros` microseconds after 1970-01-01T00:00:00 UTC, written
/// in UTC as the strftime-style `format` directs; `None` where the calendar
/// does not reach that instant or the format cannot be written.
pub uninterp spec fn utc_text(micros: i64, format: Seq<char>) -> Option<Seq<char>>;

/// Writes an instant. `chrono::DateTime::from_timestamp_micros` makes the
/// UTC date and time, or nothing for an instant out of the calendar's range;
/// `DateTime::format` with `format` writes it, and fails on a format
/// directive that it does not know. No locale or time zone of the machine
/// enters.
#[verifier::external_body]
fn format_utc(micros: i64, format: &str) -> (text: Option<String>)
    ensures
        text.deep_view() == utc_text(micros, format@),
{
    match chrono::DateTime::from_timestamp_micros(micros) {
        Some(at) => {
            let mut text = String::new();
            match write!(text, "{}", at.format(format)) {
                Ok(()) => Some(text),
                Err(_) => None,
            }
        },
        None => None,
    }
}

impl Post {
    /// The day on which the post was created, in UTC, as year-month-day.
    /// `None` for a time that the calendar does not reach.
    pub fn created_on_short(&self) -> (day: Option<String>)
        ensures
            day.deep_view() == utc_text(self.created_on.micros, "%Y-%m-%d"@),
    {
        format_utc(self.created_on.micros, "%Y-%m-%d")
    }

    /// The tags of the post in one line, a space between each two.
    pub fn tags_line(&self) -> (line: String)
        ensures
            line@ == spaced(self@.tags),
    {
        let mut line: String = String::new();
        let mut i: usize = 0;
        while i < self.tags.len()
            invariant
                i <= self.tags.len(),
                line@ == spaced(self@.tags.take(i as int)),
            decreases self.tags.len() - i,
        {
            proof {
                reveal_strlit(" ");
                let shown = self@.tags.take(i + 1);
                assert(shown.drop_last() =~= self@.tags.take(i as int));
            }
            if i > 0 {
                line.append(" ");
            }
            line.append(self.tags[i].as_str());
            i += 1;
        }
        assert(self@.tags.take(i as int) =~= self@.tags);
        line
    }

    /// Whether `tag` is among the post's tags. The match is exact and case-sensitive.
    pub fn has_tag(&self, tag: &str) -> (found: bool)
        ensures
            found == self@.has_tag(tag@),
    {
        let wanted: String = tag.to_owned();
        let mut i: usize = 0;
        while i < self.tags.len()
            invariant
                i <= self.tags.len(),
                wanted@ == tag@,
                forall|j: int| 0 <= j < i ==> self.tags[j]@ != tag@,
            decreases self.tags.len() - i,
        {
            if self.tags[i] == wanted {
                assert(self@.tags[i as int] == tag@);
                return true;
            }
            i += 1;
        }
        false
    }
}

/// What a [`CreatePostRequest`] is to the contracts of this crate.
pub struct CreatePostRequestView {
    pub title: Seq<char>,
    pub content: Seq<char>,
    pub tags: Seq<Seq<char>>,
    pub owner_id: i32,
    pub created_on: Timestamp,
    pub published: bool,
}

impl CreatePostRequestView {
    /// The post that the request asks for, before the store has given it a key.
    pub open spec fn as_post(self) -> PostView {
        PostView {
            id: 0,
            title: self.title,
            content: self.content,
            created_on: self.created_on,
            owner_id: self.owner_id,
            tags: self.tags,
            published: self.published,
        }
    }
}

/// A request to store a new post.
#[derive(Debug, PartialEq, Eq)]
pub struct CreatePostRequest {
    pub title: String,
    pub content: String,
    pub tags: Vec<String>,
    pub owner_id: i32,
    pub created_on: Timestamp,
    pub published: bool,
}

impl View for CreatePostRequest {
    type V = CreatePostRequestView;

    open spec fn view(&self) -> CreatePostRequestView {
        CreatePostRequestView {
            title: self.title@,
            content: self.content@,
            tags: self.tags.deep_view(),
            owner_id: self.owner_id,
            created_on: self.created_on,
            published: self.published,
        }
    }
}

impl Clone for CreatePostRequest {
    fn clone(&self) -> (copy: CreatePostRequest)
        ensures
            copy@ == self@,
    {
        CreatePostRequest {
            title: self.title.clone(),
            content: self.content.clone(),
            tags: clone_strings(&self.tags),
            owner_id: self.owner_id,
            created_on: self.created_on,
            published: self.published,
        }
    }
}

impl CreatePostRequest {
    /// A request from the parts that a client sends. A missing creation time
    /// becomes `now`; a missing publication flag becomes `false`.
    pub fn new(
        title: String,
        content: String,
        tags: Vec<String>,
        owner_id: i32,
        created_on: Option<Timestamp>,
        published: Option<bool>,
        now: Timestamp,
    ) -> (request: CreatePostRequest)
        ensures
            request.title == title,
            request.content == content,
            request.tags == tags,
            request.owner_id == owner_id,
            request.created_on == match created_on {
                Some(at) => at,
                None => now,
            },
            request.published == match published {
                Some(flag) => flag,
                None => false,
            },
    {
        CreatePostRequest {
            title,
            content,
            tags,
            owner_id,
            created_on: match created_on {
                Some(at) => at,
                None => now,
            },
            published: match published {
                Some(flag) => flag,
                None => false,
            },
        }
    }

    /// Replaces the Markdown content by the HTML for it: what the remote
    /// renderer delivered, or else what the local renderer makes of it.
    pub fn convert_markdown(&mut self, remote: RemoteRendering)
        ensures
            final(self)@ == (CreatePostRequestView {
                content: match remote.delivered() {
                    Some(body) => body,
                    None => commonmark_html(old(self)@.content),
                },
                ..old(self)@
            }),
    {
        self.content = markdown_to_html(self.content.as_str(), remote);
    }

    /// The post that the request asks for, with key 0 until the store assigns one.
    pub fn into_post(self) -> (post: Post)
        ensures
            post@ == self@.as_post(),
    {
        Post {
            title: self.title,
            content: self.content,
            id: 0,
            created_on: self.created_on,
            owner_id: self.owner_id,
            tags: self.tags,
            published: self.published,
        }
    }
}

/// A request to register a user.
#[derive(Debug, PartialEq, Eq)]
pub struct CreateUserRequest {
    pub name: String,
    pub password: String,
    pub password_repeated: String,
}

/// The credentials that a login presents.
#[derive(Debug, PartialEq, Eq)]
pub struct LoginRequest {
    pub name: String,
    pub password: String,
}

} // verus!
