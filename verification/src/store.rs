//! The data access layer: users and posts behind one handle, with every post
//! owned by a user of the same store.

use vstd::prelude::*;
use crate::dao::{lemma_page_len, page_of, Dao, PostDao, PostTable, UserDao, UserTable};
use crate::errors::Error;
use crate::model::{CreatePostRequest, CreatePostRequestView, Post, PostView, User, UserView};
use crate::util::Page;

verus! {

/// What a [`Store`] holds.
pub struct StoreState {
    pub users: UserTable,
    pub posts: PostTable,
}

impl StoreState {
    /// A store without users and posts.
    pub open spec fn empty() -> StoreState {
        StoreState { users: UserTable::empty(), posts: PostTable::empty() }
    }

    /// Both tables are well-formed and the owner of every post is a user.
    pub open spec fn wf(self) -> bool {
        &&& self.users.wf()
        &&& self.posts.wf()
        &&& forall|i: int|
            0 <= i < self.posts.rows.len() ==> self.users.by_id(#[trigger] self.posts.rows[i].owner_id) is Some
    }

    /// Why a user named `name` cannot be added, if it cannot.
    pub open spec fn insert_user_refusal(self, name: Seq<char>) -> Option<Error> {
        self.users.insert_refusal(name)
    }

    /// The store after a user was added.
    pub open spec fn with_user(self, name: Seq<char>, pw_hash: Seq<char>) -> StoreState {
        StoreState { users: self.users.with_new(name, pw_hash), ..self }
    }

    /// Why the post that `request` asks for cannot be added, if it cannot.
    pub open spec fn insert_post_refusal(self, request: CreatePostRequestView) -> Option<Error> {
        if self.users.by_id(request.owner_id) is None {
            Some(Error::ForeignKeyViolation)
        } else {
            self.posts.insert_refusal()
        }
    }

    /// The store after the post that `request` asks for was added.
    pub open spec fn with_post(self, request: CreatePostRequestView) -> StoreState {
        StoreState { posts: self.posts.with_new(request.as_post()), ..self }
    }

    /// The store after the posts that `requests` ask for were added in order.
    pub open spec fn with_posts(self, requests: Seq<CreatePostRequestView>) -> StoreState
        decreases requests.len(),
    {
        if requests.len() == 0 {
            self
        } else {
            self.with_posts(requests.drop_last()).with_post(requests.last())
        }
    }

    /// The post with key `id` where `owner` owns it.
    pub open spec fn post_of_owner(self, id: i32, owner: i32) -> Option<PostView> {
        match self.posts.by_id(id) {
            Some(row) => if row.owner_id == owner {
                Some(row)
            } else {
                None
            },
            None => None,
        }
    }

    /// The store after the post with key `post.id` was revised by `post`.
    pub open spec fn with_revised_post(self, post: PostView) -> StoreState {
        StoreState { posts: self.posts.with_updated(post), ..self }
    }
}

/// A user that was added is found under its name, with the hash that was
/// given for it and the next key; the store stays well-formed. So a login
/// under that name is decided by that hash.
pub proof fn lemma_added_user_is_found(store: StoreState, name: Seq<char>, pw_hash: Seq<char>)
    requires
        store.wf(),
        store.insert_user_refusal(name) is None,
    ensures
        store.with_user(name, pw_hash).wf(),
        store.with_user(name, pw_hash).users.by_name(name) == Some(
            UserView { id: (store.users.last_key + 1) as i32, name, pw_hash },
        ),
        store.with_user(name, pw_hash).users.by_id((store.users.last_key + 1) as i32) == Some(
            UserView { id: (store.users.last_key + 1) as i32, name, pw_hash },
        ),
{
    store.users.lemma_with_new(name, pw_hash);
}

/// A post that was added for a user of the store is found under the next
/// key, at the end of its owner's posts; the store stays well-formed.
pub proof fn lemma_added_post_is_found(store: StoreState, request: CreatePostRequestView)
    requires
        store.wf(),
        store.insert_post_refusal(request) is None,
    ensures
        store.with_post(request).wf(),
        store.with_post(request).posts.by_id((store.posts.last_key + 1) as i32) == Some(
            PostView { id: (store.posts.last_key + 1) as i32, ..request.as_post() },
        ),
        store.with_post(request).posts.posts_of(request.owner_id) == store.posts.posts_of(request.owner_id).push(
            PostView { id: (store.posts.last_key + 1) as i32, ..request.as_post() },
        ),
{
    store.posts.lemma_with_new(request.as_post());
    store.posts.lemma_with_new_queries(request.as_post(), request.owner_id, Seq::empty());
}

/// After `requests.len()` published posts were added for `owner`, the
/// listing of `owner` is longer by that many posts, and a page of it holds
/// `page_size` posts, or what is left of the listing after
/// `page_index * page_size` posts where that is less, or nothing where the
/// listing ends before the page begins.
pub proof fn lemma_pages_after_inserts(
    store: StoreState,
    owner: i32,
    requests: Seq<CreatePostRequestView>,
    page_index: int,
    page_size: int,
)
    requires
        forall|i: int| 0 <= i < requests.len() ==> (#[trigger] requests[i]).owner_id == owner && requests[i].published,
        0 <= page_index,
        0 <= page_size,
    ensures
        store.with_posts(requests).posts.listing(owner).len() == store.posts.listing(owner).len() + requests.len(),
        ({
            let n = store.posts.listing(owner).len() + requests.len();
            page_of(store.with_posts(requests).posts.listing(owner), page_index, page_size).len() == if n
                - page_index * page_size <= 0 {
                0
            } else if n - page_index * page_size < page_size {
                n - page_index * page_size
            } else {
                page_size
            }
        }),
    decreases requests.len(),
{
    if requests.len() > 0 {
        let earlier = requests.drop_last();
        lemma_pages_after_inserts(store, owner, earlier, page_index, page_size);
        store.with_posts(earlier).posts.lemma_with_new_queries(requests.last().as_post(), owner, Seq::empty());
    }
    lemma_page_len(store.with_posts(requests).posts.listing(owner), page_index, page_size);
}

/// Users and posts in memory, standing where a database connection would.
pub struct Store {
    users: UserDao,
    posts: PostDao,
}

impl View for Store {
    type V = StoreState;

    closed spec fn view(&self) -> StoreState {
        StoreState { users: self.users@, posts: self.posts@ }
    }
}

impl Clone for Store {
    fn clone(&self) -> (copy: Store)
        ensures
            copy@ == self@,
    {
        Store { users: self.users.clone(), posts: self.posts.clone() }
    }
}

impl Store {
    /// A store without users and posts.
    pub fn new() -> (store: Store)
        ensures
            store@ == StoreState::empty(),
            store@.wf(),
    {
        Store { users: UserDao::new(), posts: PostDao::new() }
    }

    /// The store of the two tables, if in them the owner of every post is
    /// a user.
    pub fn restore(users: UserDao, posts: PostDao) -> (store: Option<Store>)
        requires
            users@.wf(),
            posts@.wf(),
        ensures
            store is Some <==> (StoreState { users: users@, posts: posts@ }).wf(),
            store matches Some(s) ==> s@ == (StoreState { users: users@, posts: posts@ }),
    {
        let owners = posts.owners();
        let mut i: usize = 0;
        while i < owners.len()
            invariant
                i <= owners.len(),
                users@.wf(),
                owners@ == posts@.rows.map_values(|row: PostView| row.owner_id),
                forall|j: int| 0 <= j < i ==> users@.by_id(#[trigger] posts@.rows[j].owner_id) is Some,
            decreases owners.len() - i,
        {
            match users.has_key(&owners[i]) {
                Ok(true) => {},
                _ => {
                    return None;
                },
            }
            i += 1;
        }
        Some(Store { users, posts })
    }

    /// The users, in the order in which they were added.
    pub fn users(&self) -> (all: Vec<User>)
        ensures
            all.deep_view() == self@.users.rows,
    {
        match self.users.get_all() {
            Ok(rows) => {
                rows
            },
            Err(_) => Vec::new(),
        }
    }

    /// The posts, in the order in which they were added.
    pub fn posts(&self) -> (all: Vec<Post>)
        ensures
            all.deep_view() == self@.posts.rows,
    {
        match self.posts.get_all() {
            Ok(rows) => {
                rows
            },
            Err(_) => Vec::new(),
        }
    }

    /// The user with key `id`, if there is one.
    pub fn find_user_by_id(&self, id: i32) -> (found: Option<User>)
        requires
            self@.wf(),
        ensures
            found.deep_view() == self@.users.by_id(id),
    {
        match self.users.get_one(&id) {
            Ok(user) => Some(user),
            Err(_) => None,
        }
    }

    /// The user named `name`, if there is one. The comparison is case-sensitive.
    pub fn find_user_by_name(&self, name: &str) -> (found: Option<User>)
        requires
            self@.wf(),
        ensures
            found.deep_view() == self@.users.by_name(name@),
    {
        self.users.find_by_name(name)
    }

    /// Adds a user under the next key and returns the stored row. Fails with
    /// `Conflict` where the name is taken and with `StorageFault` where the
    /// keys are used up; the store is then unchanged.
    pub fn insert_user(&mut self, name: String, pw_hash: String) -> (added: Result<User, Error>)
        requires
            old(self)@.wf(),
        ensures
            final(self)@.wf(),
            match old(self)@.insert_user_refusal(name@) {
                Some(e) => added == Err::<User, Error>(e) && final(self)@ == old(self)@,
                None => {
                    &&& added matches Ok(user)
                    &&& final(self)@ == old(self)@.with_user(name@, pw_hash@)
                    &&& user@ == final(self)@.users.rows.last()
                },
            },
    {
        let mut user = User { name, pw_hash, id: 0 };
        match self.users.insert(&mut user) {
            Ok(()) => {
                proof {
                    old(self)@.users.lemma_with_new(name@, pw_hash@);
                }
                Ok(user)
            },
            Err(e) => Err(e),
        }
    }

    /// Adds the post that `request` asks for under the next key and returns
    /// the stored row. Fails with `ForeignKeyViolation` where the owner is no
    /// user of this store and with `StorageFault` where the keys are used up;
    /// the store is then unchanged.
    pub fn insert_post(&mut self, request: CreatePostRequest) -> (added: Result<Post, Error>)
        requires
            old(self)@.wf(),
        ensures
            final(self)@.wf(),
            match old(self)@.insert_post_refusal(request@) {
                Some(e) => added == Err::<Post, Error>(e) && final(self)@ == old(self)@,
                None => {
                    &&& added matches Ok(post)
                    &&& final(self)@ == old(self)@.with_post(request@)
                    &&& post@ == final(self)@.posts.rows.last()
                },
            },
    {
        match self.users.has_key(&request.owner_id) {
            Ok(true) => {},
            _ => {
                return Err(Error::ForeignKeyViolation);
            },
        }
        let mut post = request.into_post();
        match self.posts.insert(&mut post) {
            Ok(()) => Ok(post),
            Err(e) => Err(e),
        }
    }

    /// The post with key `id`, whoever owns it.
    pub fn find_post_by_id(&self, id: i32) -> (found: Option<Post>)
        requires
            self@.wf(),
        ensures
            found.deep_view() == self@.posts.by_id(id),
    {
        match self.posts.get_one(&id) {
            Ok(post) => Some(post),
            Err(_) => None,
        }
    }

    /// The post with key `id` if `owner_id` owns it.
    pub fn find_post_by_id_and_owner(&self, id: i32, owner_id: i32) -> (found: Option<Post>)
        requires
            self@.wf(),
        ensures
            found.deep_view() == self@.post_of_owner(id, owner_id),
    {
        match self.posts.get_one(&id) {
            Ok(post) => if post.owner_id == owner_id {
                Some(post)
            } else {
                None
            },
            Err(_) => None,
        }
    }

    /// Page `page_index` of the published posts of `owner_id`, in insertion
    /// order, `page_size` rows to a page. The size is taken as given.
    /// The number of pages is not counted and reported as 0. A negative index
    /// or size is refused with `ValidationError`.
    pub fn find_posts_page(
        &self,
        owner_id: i32,
        page_index: i64,
        page_size: i64,
    ) -> (page: Result<Page<Post>, Error>)
        ensures
            page is Ok <==> 0 <= page_index && 0 <= page_size,
            page matches Err(e) ==> e == Error::ValidationError,
            page matches Ok(p) ==> {
                &&& p.data.deep_view() == page_of(
                    self@.posts.listing(owner_id),
                    page_index as int,
                    page_size as int,
                )
                &&& p.current_page == page_index
                &&& p.num_pages == 0
                &&& p.page_size == page_size
            },
    {
        if page_index < 0 || page_size < 0 {
            return Err(Error::ValidationError);
        }
        let rows = self.posts.get_page(owner_id, page_index, page_size);
        Ok(Page::new(rows, page_index, 0, page_size))
    }

    /// All posts of `owner_id` that carry `tag`, published or not, in
    /// insertion order. The tag is matched whole and case-sensitively.
    pub fn find_posts_by_tag(&self, owner_id: i32, tag: &str) -> (posts: Vec<Post>)
        ensures
            posts.deep_view() == self@.posts.tagged(owner_id, tag@),
    {
        self.posts.get_tagged(owner_id, tag)
    }

    /// Replaces title, content, tags and publication flag of the stored post
    /// with the key of `post` and returns the stored row. Owner and creation
    /// time stay as stored. Fails with `NotFound`, changing nothing, where no
    /// post has that key. Who may do this is for the caller to decide.
    pub fn update_post(&mut self, post: &Post) -> (updated: Result<Post, Error>)
        requires
            old(self)@.wf(),
        ensures
            final(self)@.wf(),
            match old(self)@.posts.by_id(post.id) {
                Some(stored) => {
                    &&& updated matches Ok(row)
                    &&& row@ == PostTable::revised(stored, post@)
                    &&& final(self)@ == old(self)@.with_revised_post(post@)
                    &&& final(self)@.posts.by_id(post.id) == Some(row@)
                },
                None => updated == Err::<Post, Error>(Error::NotFound) && final(self)@ == old(self)@,
            },
    {
        match self.posts.has_key(&post.id) {
            Ok(true) => {},
            _ => {
                return Err(Error::NotFound);
            },
        }
        let _ = self.posts.update(post);
        proof {
            let before = old(self)@;
            let at = before.posts.index_of_id(post.id);
            self@.posts.lemma_id_at(at);
        }
        self.posts.get_one(&post.id)
    }
}

} // verus!
