//! Creation, lookup, listing and revision of posts.

use vstd::prelude::*;
use crate::dao::{lemma_page_len, page_of, PostTable};
use crate::errors::Error;
use crate::model::{CreatePostRequest, CreatePostRequestView, Post};
use crate::store::Store;
use crate::util::{commonmark_html, Page, RemoteRendering};

verus! {

/// The most rows that one page of a listing holds.
pub const MAX_PAGE_SIZE: i64 = 50;

/// `page_size` where it is at most `MAX_PAGE_SIZE`, else `MAX_PAGE_SIZE`.
pub open spec fn capped(page_size: i64) -> i64 {
    if page_size <= MAX_PAGE_SIZE {
        page_size
    } else {
        MAX_PAGE_SIZE
    }
}

/// Stores the post that `request` asks for.
pub fn insert_post(request: CreatePostRequest, conn: &mut Store) -> (added: Result<Post, Error>)
    requires
        old(conn)@.wf(),
    ensures
        final(conn)@.wf(),
        match old(conn)@.insert_post_refusal(request@) {
            Some(e) => added == Err::<Post, Error>(e) && final(conn)@ == old(conn)@,
            None => {
                &&& added matches Ok(post)
                &&& final(conn)@ == old(conn)@.with_post(request@)
                &&& post@ == final(conn)@.posts.rows.last()
            },
        },
{
    conn.insert_post(request)
}

/// The post with key `post_id`, whoever owns it.
pub fn find_one(post_id: i32, conn: &Store) -> (found: Result<Option<Post>, Error>)
    requires
        conn@.wf(),
    ensures
        found matches Ok(post) && post.deep_view() == conn@.posts.by_id(post_id),
{
    Ok(conn.find_post_by_id(post_id))
}

/// The post with key `post_id` if `user_id` owns it.
pub fn find_one_of(post_id: i32, user_id: i32, conn: &Store) -> (found: Result<Option<Post>, Error>)
    requires
        conn@.wf(),
    ensures
        found matches Ok(post) && post.deep_view() == conn@.post_of_owner(post_id, user_id),
{
    Ok(conn.find_post_by_id_and_owner(post_id, user_id))
}

/// Page `page_num` of the published posts of `user_id`. A `page_size` above
/// `MAX_PAGE_SIZE` is cut down to it, and the page is counted off in rows of
/// the size after the cut. A negative number or size is refused with
/// `ValidationError`.
pub fn find_page(
    user_id: i32,
    page_num: i64,
    page_size: i64,
    conn: &Store,
) -> (page: Result<Page<Post>, Error>)
    ensures
        page is Ok <==> 0 <= page_num && 0 <= page_size,
        page matches Err(e) ==> e == Error::ValidationError,
        page matches Ok(p) ==> {
            &&& p.data.deep_view() == page_of(
                conn@.posts.listing(user_id),
                page_num as int,
                capped(page_size) as int,
            )
            &&& p.data.len() <= MAX_PAGE_SIZE
            &&& p.current_page == page_num
            &&& p.num_pages == 0
            &&& p.page_size == capped(page_size)
        },
{
    let size = if page_size <= MAX_PAGE_SIZE {
        page_size
    } else {
        MAX_PAGE_SIZE
    };
    let page = conn.find_posts_page(user_id, page_num, size);
    proof {
        if page is Ok {
            lemma_page_len(conn@.posts.listing(user_id), page_num as int, size as int);
        }
    }
    page
}

/// Revises the stored post with the key of `post`.
pub fn update_post(post: &Post, conn: &mut Store) -> (updated: Result<Post, Error>)
    requires
        old(conn)@.wf(),
    ensures
        final(conn)@.wf(),
        match old(conn)@.posts.by_id(post.id) {
            Some(stored) => {
                &&& updated matches Ok(row)
                &&& row@ == PostTable::revised(stored, post@)
                &&& final(conn)@ == old(conn)@.with_revised_post(post@)
                &&& final(conn)@.posts.by_id(post.id) == Some(row@)
            },
            None => updated == Err::<Post, Error>(Error::NotFound) && final(conn)@ == old(conn)@,
        },
{
    conn.update_post(post)
}

/// All posts of `user_id` that carry `tag`.
pub fn get_by_tag(user_id: i32, tag: &str, conn: &Store) -> (posts: Result<Vec<Post>, Error>)
    ensures
        posts matches Ok(found) && found.deep_view() == conn@.posts.tagged(user_id, tag@),
{
    Ok(conn.find_posts_by_tag(user_id, tag))
}

/// `request` with its content replaced by the HTML for it.
pub open spec fn rendered(request: CreatePostRequestView, remote: RemoteRendering) -> CreatePostRequestView {
    CreatePostRequestView {
        content: match remote.delivered() {
            Some(body) => body,
            None => commonmark_html(request.content),
        },
        ..request
    }
}

/// Renders the Markdown content of `request` to HTML, from what the remote
/// renderer delivered or else locally, and stores the post. That the
/// principal may write for the owner is for the caller to check before.
pub fn create_post(
    request: CreatePostRequest,
    remote: RemoteRendering,
    conn: &mut Store,
) -> (added: Result<Post, Error>)
    requires
        old(conn)@.wf(),
    ensures
        final(conn)@.wf(),
        match old(conn)@.insert_post_refusal(request@) {
            Some(e) => added == Err::<Post, Error>(e) && final(conn)@ == old(conn)@,
            None => {
                &&& added matches Ok(post)
                &&& final(conn)@ == old(conn)@.with_post(rendered(request@, remote))
                &&& post@ == final(conn)@.posts.rows.last()
            },
        },
{
    let mut request = request;
    request.convert_markdown(remote);
    conn.insert_post(request)
}

/// Whether the principal `principal_id` may store `post` under the key
/// `post_id` of the request's path: the keys agree and the principal owns the post.
pub open spec fn may_edit(post: &Post, post_id: i32, principal_id: i32) -> bool {
    post.id == post_id && post.owner_id == principal_id
}

/// Revises a stored post for its owner. Fails with `Forbidden`, changing
/// nothing, unless `may_edit` holds. The content is stored as given: it is
/// taken to be HTML already.
pub fn edit_post(
    post: &Post,
    post_id: i32,
    principal_id: i32,
    conn: &mut Store,
) -> (updated: Result<Post, Error>)
    requires
        old(conn)@.wf(),
    ensures
        final(conn)@.wf(),
        !may_edit(post, post_id, principal_id) ==> updated == Err::<Post, Error>(Error::Forbidden)
            && final(conn)@ == old(conn)@,
        may_edit(post, post_id, principal_id) ==> match old(conn)@.posts.by_id(post.id) {
            Some(stored) => {
                &&& updated matches Ok(row)
                &&& row@ == PostTable::revised(stored, post@)
                &&& final(conn)@ == old(conn)@.with_revised_post(post@)
                &&& final(conn)@.posts.by_id(post.id) == Some(row@)
            },
            None => updated == Err::<Post, Error>(Error::NotFound) && final(conn)@ == old(conn)@,
        },
{
    if post.id != post_id || post.owner_id != principal_id {
        return Err(Error::Forbidden);
    }
    conn.update_post(post)
}

/// The post with key `post_id` together with the name of its owner. In a
/// well-formed store every post has its owner, so this cannot fail.
pub fn find_with_author(post_id: i32, conn: &Store) -> (found: Result<Option<(Post, String)>, Error>)
    requires
        conn@.wf(),
    ensures
        match conn@.posts.by_id(post_id) {
            None => found == Ok::<Option<(Post, String)>, Error>(None),
            Some(row) => {
                &&& found matches Ok(Some(pair))
                &&& pair.0@ == row
                &&& conn@.users.by_id(row.owner_id) matches Some(owner)
                &&& pair.1@ == owner.name
            },
        },
{
    match conn.find_post_by_id(post_id) {
        Some(post) => match crate::service::user::get_name(post.owner_id, conn) {
            Ok(name) => Ok(Some((post, name))),
            Err(e) => Err(e),
        },
        None => Ok(None),
    }
}

} // verus!
