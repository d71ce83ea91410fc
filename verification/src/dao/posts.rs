//! The table of posts and the queries on it: by owner, by tag, and page by
//! page.

use vstd::prelude::*;
use crate::dao::{Dao, Table};
use crate::errors::Error;
use crate::model::{Post, PostView};

verus! {

/// Posts of `owner`, published or not.
pub open spec fn owned_by(owner: i32) -> spec_fn(PostView) -> bool {
    |p: PostView| p.owner_id == owner
}

/// Published posts of `owner`: what a listing shows.
pub open spec fn listed_for(owner: i32) -> spec_fn(PostView) -> bool {
    |p: PostView| p.owner_id == owner && p.published
}

/// Posts of `owner` that carry `tag`.
pub open spec fn tagged_for(owner: i32, tag: Seq<char>) -> spec_fn(PostView) -> bool {
    |p: PostView| p.owner_id == owner && p.has_tag(tag)
}

/// The part of `listing` that page `page_index` shows where a page holds
/// `page_size` rows: the rows from `page_index * page_size` on, at most
/// `page_size` of them, fewer where the listing ends before.
pub open spec fn page_of<A>(listing: Seq<A>, page_index: int, page_size: int) -> Seq<A>
    recommends
        0 <= page_index,
        0 <= page_size,
{
    let start = if page_index * page_size < listing.len() {
        page_index * page_size
    } else {
        listing.len() as int
    };
    let end = if start + page_size < listing.len() {
        start + page_size
    } else {
        listing.len() as int
    };
    listing.subrange(start, end)
}

/// A page of a listing of `n` rows holds `page_size` rows, or what is left of
/// the listing after `page_index * page_size` rows where that is less, or
/// nothing where the listing ends before the page begins.
pub proof fn lemma_page_len<A>(listing: Seq<A>, page_index: int, page_size: int)
    requires
        0 <= page_index,
        0 <= page_size,
    ensures
        page_of(listing, page_index, page_size).len() == if listing.len() - page_index * page_size
            <= 0 {
            0
        } else if listing.len() - page_index * page_size < page_size {
            listing.len() - page_index * page_size
        } else {
            page_size
        },
{
    assert(0 <= page_index * page_size) by (nonlinear_arith)
        requires
            0 <= page_index,
            0 <= page_size,
    ;
}

/// A page shows consecutive rows of the listing, in the listing's order: its
/// row `k` is row `page_index * page_size + k` of the listing.
pub proof fn lemma_page_rows<A>(listing: Seq<A>, page_index: int, page_size: int, k: int)
    requires
        0 <= page_index,
        0 <= page_size,
        0 <= k < page_of(listing, page_index, page_size).len(),
    ensures
        page_index * page_size + k < listing.len(),
        page_of(listing, page_index, page_size)[k] == listing[page_index * page_size + k],
{
    assert(0 <= page_index * page_size) by (nonlinear_arith)
        requires
            0 <= page_index,
            0 <= page_size,
    ;
}

/// Whether a post carries a tag does not depend on the order of its tags.
pub proof fn lemma_tag_order_irrelevant(post: PostView, other: PostView, tag: Seq<char>)
    requires
        post.tags.to_multiset() == other.tags.to_multiset(),
    ensures
        post.has_tag(tag) == other.has_tag(tag),
{
    vstd::seq_lib::to_multiset_contains(post.tags, tag);
    vstd::seq_lib::to_multiset_contains(other.tags, tag);
}

/// A filtered sequence holds exactly the elements that the filter accepts.
pub proof fn lemma_filter_exact<A>(s: Seq<A>, pred: spec_fn(A) -> bool, a: A)
    ensures
        s.filter(pred).contains(a) <==> s.contains(a) && pred(a),
{
    if s.filter(pred).contains(a) {
        s.lemma_filter_contains_rev(pred, a);
        let k = choose|k: int| 0 <= k < s.filter(pred).len() && s.filter(pred)[k] == a;
        s.lemma_filter_pred(pred, k);
    }
    if s.contains(a) && pred(a) {
        let i = choose|i: int| 0 <= i < s.len() && s[i] == a;
        s.lemma_filter_contains(pred, i);
    }
}

/// Filtering one row more either appends that row or changes nothing.
pub proof fn lemma_filter_step<A>(s: Seq<A>, i: int, pred: spec_fn(A) -> bool)
    requires
        0 <= i < s.len(),
    ensures
        s.take(i + 1).filter(pred) == if pred(s[i]) {
            s.take(i).filter(pred).push(s[i])
        } else {
            s.take(i).filter(pred)
        },
{
    reveal(Seq::filter);
    assert(s.take(i + 1).drop_last() =~= s.take(i));
}

/// A page grows by a row appended to the listing exactly where that row falls
/// into the page's range.
pub proof fn lemma_page_step<A>(listing: Seq<A>, row: A, page_index: int, page_size: int)
    requires
        0 <= page_index,
        0 <= page_size,
    ensures
        page_of(listing.push(row), page_index, page_size) == if page_index * page_size <= listing.len()
            < page_index * page_size + page_size {
            page_of(listing, page_index, page_size).push(row)
        } else {
            page_of(listing, page_index, page_size)
        },
{
    assert(0 <= page_index * page_size) by (nonlinear_arith)
        requires
            0 <= page_index,
            0 <= page_size,
    ;
}

/// The rows of the post table in insertion order, and the last key handed out.
pub struct PostTable {
    pub rows: Seq<PostView>,
    pub last_key: i32,
}

impl PostTable {
    /// A table without rows that has handed out no key yet.
    pub open spec fn empty() -> PostTable {
        PostTable { rows: Seq::empty(), last_key: 0 }
    }

    /// Keys are positive, at most `last_key`, and grow along the rows.
    pub open spec fn wf(self) -> bool {
        &&& 0 <= self.last_key
        &&& forall|i: int| 0 <= i < self.rows.len() ==> 1 <= #[trigger] self.rows[i].id <= self.last_key
        &&& forall|i: int, j: int|
            0 <= i < j < self.rows.len() ==> #[trigger] self.rows[i].id < #[trigger] self.rows[j].id
    }

    /// The position of the row with key `id`, or the number of rows if there is none.
    pub open spec fn index_of_id(self, id: i32) -> int {
        if exists|i: int| 0 <= i < self.rows.len() && #[trigger] self.rows[i].id == id {
            choose|i: int| 0 <= i < self.rows.len() && #[trigger] self.rows[i].id == id
        } else {
            self.rows.len() as int
        }
    }

    /// The row with key `id`, if there is one.
    pub open spec fn by_id(self, id: i32) -> Option<PostView> {
        if self.index_of_id(id) < self.rows.len() {
            Some(self.rows[self.index_of_id(id)])
        } else {
            None
        }
    }

    /// Why no row can be added, if none can.
    pub open spec fn insert_refusal(self) -> Option<Error> {
        if self.last_key == i32::MAX {
            Some(Error::StorageFault)
        } else {
            None
        }
    }

    /// The table after `row` was added at its end under the next key.
    pub open spec fn with_new(self, row: PostView) -> PostTable {
        let id = (self.last_key + 1) as i32;
        PostTable { rows: self.rows.push(PostView { id, ..row }), last_key: id }
    }

    /// `stored` with title, content, tags and publication flag taken from `row`.
    pub open spec fn revised(stored: PostView, row: PostView) -> PostView {
        PostView {
            title: row.title,
            content: row.content,
            tags: row.tags,
            published: row.published,
            ..stored
        }
    }

    /// The table after the row with key `row.id` was revised by `row`; the
    /// table itself where no row has that key.
    pub open spec fn with_updated(self, row: PostView) -> PostTable {
        if self.by_id(row.id) is Some {
            let at = self.index_of_id(row.id);
            PostTable { rows: self.rows.update(at, Self::revised(self.rows[at], row)), ..self }
        } else {
            self
        }
    }

    /// The table without the row with key `id`.
    pub open spec fn without(self, id: i32) -> PostTable {
        if self.by_id(id) is Some {
            PostTable { rows: self.rows.remove(self.index_of_id(id)), ..self }
        } else {
            self
        }
    }

    /// All posts of `owner`, in insertion order.
    pub open spec fn posts_of(self, owner: i32) -> Seq<PostView> {
        self.rows.filter(owned_by(owner))
    }

    /// The published posts of `owner`, in insertion order.
    pub open spec fn listing(self, owner: i32) -> Seq<PostView> {
        self.rows.filter(listed_for(owner))
    }

    /// The posts of `owner` that carry `tag`, in insertion order.
    pub open spec fn tagged(self, owner: i32, tag: Seq<char>) -> Seq<PostView> {
        self.rows.filter(tagged_for(owner, tag))
    }

    /// A query returns exactly the rows of the table that it asks for: a post
    /// is among the posts of `owner` tagged `tag` if and only if it is a row,
    /// `owner` owns it and `tag` is one of its tags; likewise for the listing
    /// and for all posts of an owner.
    pub proof fn lemma_query_exact(self, owner: i32, tag: Seq<char>, post: PostView)
        ensures
            self.tagged(owner, tag).contains(post) <==> self.rows.contains(post) && post.owner_id == owner
                && post.tags.contains(tag),
            self.listing(owner).contains(post) <==> self.rows.contains(post) && post.owner_id == owner
                && post.published,
            self.posts_of(owner).contains(post) <==> self.rows.contains(post) && post.owner_id == owner,
    {
        lemma_filter_exact(self.rows, tagged_for(owner, tag), post);
        lemma_filter_exact(self.rows, listed_for(owner), post);
        lemma_filter_exact(self.rows, owned_by(owner), post);
    }

    /// A post added to the table goes to the end of each query that it
    /// answers, under its new key, and leaves the other queries as they were.
    pub proof fn lemma_with_new_queries(self, row: PostView, owner: i32, tag: Seq<char>)
        ensures
            self.with_new(row).posts_of(owner) == if row.owner_id == owner {
                self.posts_of(owner).push(self.with_new(row).rows.last())
            } else {
                self.posts_of(owner)
            },
            self.with_new(row).listing(owner) == if row.owner_id == owner && row.published {
                self.listing(owner).push(self.with_new(row).rows.last())
            } else {
                self.listing(owner)
            },
            self.with_new(row).tagged(owner, tag) == if row.owner_id == owner && row.tags.contains(tag) {
                self.tagged(owner, tag).push(self.with_new(row).rows.last())
            } else {
                self.tagged(owner, tag)
            },
    {
        let grown = self.with_new(row).rows;
        let n = self.rows.len() as int;
        assert(grown.take(n) =~= self.rows);
        assert(grown.take(n + 1) =~= grown);
        lemma_filter_step(grown, n, owned_by(owner));
        lemma_filter_step(grown, n, listed_for(owner));
        lemma_filter_step(grown, n, tagged_for(owner, tag));
    }

    /// Adding a post keeps the table well-formed and every earlier row
    /// findable as before; the new row is found by its key.
    pub proof fn lemma_with_new(self, row: PostView)
        requires
            self.wf(),
            self.insert_refusal() is None,
        ensures
            self.with_new(row).wf(),
            self.with_new(row).by_id((self.last_key + 1) as i32) == Some(self.with_new(row).rows.last()),
            forall|id: i32| #[trigger] self.by_id(id) is Some ==> self.with_new(row).by_id(id) == self.by_id(id),
    {
        let grown = self.with_new(row);
        grown.lemma_id_at(self.rows.len() as int);
        assert forall|id: i32| #[trigger] self.by_id(id) is Some implies grown.by_id(id) == self.by_id(id) by {
            let k = self.index_of_id(id);
            grown.lemma_id_at(k);
        }
    }

    /// In a well-formed table a key determines its row.
    pub proof fn lemma_id_at(self, i: int)
        requires
            self.wf(),
            0 <= i < self.rows.len(),
        ensures
            self.index_of_id(self.rows[i].id) == i,
            self.by_id(self.rows[i].id) == Some(self.rows[i]),
    {
    }
}

/// The table of posts.
pub struct PostDao {
    rows: Vec<Post>,
    last_id: i32,
}

impl View for PostDao {
    type V = PostTable;

    closed spec fn view(&self) -> PostTable {
        PostTable { rows: self.rows.deep_view(), last_key: self.last_id }
    }
}

impl PostDao {
    /// An empty table; the first key it hands out is 1.
    pub fn new() -> (dao: PostDao)
        ensures
            dao@ == PostTable::empty(),
            dao@.wf(),
    {
        let dao = PostDao { rows: Vec::new(), last_id: 0 };
        assert(dao@.rows =~= Seq::empty());
        dao
    }

    /// Position of the row with key `id`, or the number of rows.
    fn position_of_id(&self, id: i32) -> (at: usize)
        requires
            self@.wf(),
        ensures
            at == self@.index_of_id(id),
            at <= self.rows.len(),
    {
        let mut i: usize = 0;
        while i < self.rows.len()
            invariant
                i <= self.rows.len(),
                self@.wf(),
                forall|j: int| 0 <= j < i ==> self@.rows[j].id != id,
            decreases self.rows.len() - i,
        {
            if self.rows[i].id == id {
                proof {
                    self@.lemma_id_at(i as int);
                }
                return i;
            }
            i += 1;
        }
        i
    }

    /// The table that holds `rows` and has handed out `last_id` as its last
    /// key, if that is a well-formed table: keys positive, at most
    /// `last_id` and growing along the rows.
    pub fn restore(rows: Vec<Post>, last_id: i32) -> (dao: Option<PostDao>)
        ensures
            dao is Some <==> (PostTable { rows: rows.deep_view(), last_key: last_id }).wf(),
            dao matches Some(table) ==> table@ == (PostTable { rows: rows.deep_view(), last_key: last_id }),
    {
        let ghost table = PostTable { rows: rows.deep_view(), last_key: last_id };
        if last_id < 0 {
            return None;
        }
        let mut i: usize = 0;
        while i < rows.len()
            invariant
                i <= rows.len(),
                0 <= last_id,
                table == (PostTable { rows: rows.deep_view(), last_key: last_id }),
                forall|a: int| 0 <= a < i ==> 1 <= #[trigger] table.rows[a].id <= last_id,
                forall|a: int, b: int| 0 <= a < b < i ==> #[trigger] table.rows[a].id < #[trigger] table.rows[b].id,
            decreases rows.len() - i,
        {
            if rows[i].id < 1 || rows[i].id > last_id {
                assert(!(1 <= table.rows[i as int].id <= last_id));
                return None;
            }
            if i > 0 && rows[i - 1].id >= rows[i].id {
                assert(!(table.rows[i - 1].id < table.rows[i as int].id));
                return None;
            }
            i += 1;
        }
        Some(PostDao { rows, last_id })
    }

    /// The owners of the posts, in the order of the rows.
    pub fn owners(&self) -> (owners: Vec<i32>)
        ensures
            owners@ == self@.rows.map_values(|row: PostView| row.owner_id),
    {
        let mut owners: Vec<i32> = Vec::new();
        let mut i: usize = 0;
        while i < self.rows.len()
            invariant
                i <= self.rows.len(),
                owners.len() == i,
                forall|j: int| 0 <= j < i ==> owners[j] == self@.rows[j].owner_id,
            decreases self.rows.len() - i,
        {
            owners.push(self.rows[i].owner_id);
            i += 1;
        }
        owners
    }

    /// The rows that `keep` accepts, in insertion order.
    fn select<F>(&self, keep: F, Ghost(pred): Ghost<spec_fn(PostView) -> bool>) -> (chosen: Vec<Post>) where
        F: Fn(&Post) -> bool,
        requires
            forall|p: &Post| call_requires(keep, (p,)),
            forall|p: &Post, b: bool| call_ensures(keep, (p,), b) ==> b == pred(p@),
        ensures
            chosen.deep_view() == self@.rows.filter(pred),
    {
        let mut chosen: Vec<Post> = Vec::new();
        let mut i: usize = 0;
        proof {
            reveal(Seq::filter);
        }
        while i < self.rows.len()
            invariant
                i <= self.rows.len(),
                forall|p: &Post| call_requires(keep, (p,)),
                forall|p: &Post, b: bool| call_ensures(keep, (p,), b) ==> b == pred(p@),
                chosen.deep_view() == self@.rows.take(i as int).filter(pred),
            decreases self.rows.len() - i,
        {
            proof {
                lemma_filter_step(self@.rows, i as int, pred);
            }
            if keep(&self.rows[i]) {
                chosen.push(self.rows[i].clone());
            }
            i += 1;
        }
        assert(self@.rows.take(i as int) =~= self@.rows);
        chosen
    }

    /// All posts of the user with key `user_id`, in insertion order.
    pub fn get_posts_for_user(&self, user_id: i32) -> (posts: Result<Vec<Post>, Error>)
        ensures
            posts matches Ok(found) && found.deep_view() == self@.posts_of(user_id),
    {
        let keep = |p: &Post| -> (b: bool)
            ensures
                b == (p.owner_id == user_id),
            { p.owner_id == user_id };
        Ok(self.select(keep, Ghost(owned_by(user_id))))
    }

    /// The posts of `owner` that carry `tag`, in insertion order.
    pub fn get_tagged(&self, owner: i32, tag: &str) -> (posts: Vec<Post>)
        ensures
            posts.deep_view() == self@.tagged(owner, tag@),
    {
        let keep = |p: &Post| -> (b: bool)
            ensures
                b == (p.owner_id == owner && p@.has_tag(tag@)),
            { p.owner_id == owner && p.has_tag(tag) };
        self.select(keep, Ghost(tagged_for(owner, tag@)))
    }

    /// Page `page_index` of the published posts of `owner`, `page_size` rows to a page.
    pub fn get_page(&self, owner: i32, page_index: i64, page_size: i64) -> (rows: Vec<Post>)
        requires
            0 <= page_index,
            0 <= page_size,
        ensures
            rows.deep_view() == page_of(self@.listing(owner), page_index as int, page_size as int),
    {
        let ghost pred = listed_for(owner);
        let ghost pi = page_index as int;
        let ghost ps = page_size as int;
        assert(0 <= pi * ps <= 0x4000_0000_0000_0000_0000_0000_0000_0000) by (nonlinear_arith)
            requires
                0 <= pi < 0x8000_0000_0000_0000,
                0 <= ps < 0x8000_0000_0000_0000,
        ;
        let start: i128 = (page_index as i128) * (page_size as i128);
        let end: i128 = start + page_size as i128;
        let mut rows: Vec<Post> = Vec::new();
        let mut seen: usize = 0;
        let mut i: usize = 0;
        proof {
            reveal(Seq::filter);
        }
        while i < self.rows.len()
            invariant
                i <= self.rows.len(),
                seen <= i,
                0 <= pi,
                0 <= ps,
                start == pi * ps,
                end == start + ps,
                pred == listed_for(owner),
                seen == self@.rows.take(i as int).filter(pred).len(),
                rows.deep_view() == page_of(self@.rows.take(i as int).filter(pred), pi, ps),
            decreases self.rows.len() - i,
        {
            let ghost matched = self@.rows.take(i as int).filter(pred);
            proof {
                lemma_filter_step(self@.rows, i as int, pred);
                lemma_page_step(matched, self@.rows[i as int], pi, ps);
            }
            if self.rows[i].owner_id == owner && self.rows[i].published {
                if start <= seen as i128 && (seen as i128) < end {
                    rows.push(self.rows[i].clone());
                }
                seen += 1;
            }
            i += 1;
        }
        assert(self@.rows.take(i as int) =~= self@.rows);
        rows
    }
}

impl Clone for PostDao {
    fn clone(&self) -> (copy: PostDao)
        ensures
            copy@ == self@,
    {
        let mut rows: Vec<Post> = Vec::new();
        let mut i: usize = 0;
        while i < self.rows.len()
            invariant
                i <= self.rows.len(),
                rows.len() == i,
                forall|j: int| 0 <= j < i ==> rows[j]@ == self.rows[j]@,
            decreases self.rows.len() - i,
        {
            rows.push(self.rows[i].clone());
            i += 1;
        }
        assert(rows.deep_view() =~= self.rows.deep_view());
        PostDao { rows, last_id: self.last_id }
    }
}

impl Table<Post, i32> for PostDao {
    open spec fn wf(table: PostTable) -> bool {
        table.wf()
    }

    open spec fn rows(table: PostTable) -> Seq<PostView> {
        table.rows
    }

    open spec fn find(table: PostTable, key: i32) -> Option<PostView> {
        table.by_id(key)
    }

    open spec fn insert_refusal(table: PostTable, row: PostView) -> Option<Error> {
        table.insert_refusal()
    }

    open spec fn inserted(table: PostTable, row: PostView) -> PostTable {
        table.with_new(row)
    }

    open spec fn stored(table: PostTable, row: PostView) -> PostView {
        PostView { id: (table.last_key + 1) as i32, ..row }
    }

    open spec fn update_refusal(table: PostTable, row: PostView) -> Option<Error> {
        None
    }

    open spec fn updated(table: PostTable, row: PostView) -> PostTable {
        table.with_updated(row)
    }

    open spec fn deleted(table: PostTable, key: i32) -> PostTable {
        table.without(key)
    }
}

/// Posts are refused only where the keys are used up, with `StorageFault`.
/// An update replaces title, content, tags and publication flag; owner and
/// creation time stay. It does nothing where no row has the key.
impl Dao<Post, i32> for PostDao {
    /// All rows, in insertion order.
    fn get_all(&self) -> (all: Result<Vec<Post>, Error>) {
        let mut posts: Vec<Post> = Vec::new();
        let mut i: usize = 0;
        while i < self.rows.len()
            invariant
                i <= self.rows.len(),
                posts.len() == i,
                forall|j: int| 0 <= j < i ==> posts[j]@ == self.rows[j]@,
            decreases self.rows.len() - i,
        {
            posts.push(self.rows[i].clone());
            i += 1;
        }
        Ok(posts)
    }

    /// The row with key `key`; `NotFound` if there is none.
    fn get_one(&self, key: &i32) -> (found: Result<Post, Error>) {
        let at = self.position_of_id(*key);
        if at < self.rows.len() {
            Ok(self.rows[at].clone())
        } else {
            Err(Error::NotFound)
        }
    }

    /// Whether a row has key `key`.
    fn has_key(&self, key: &i32) -> (found: Result<bool, Error>) {
        Ok(self.position_of_id(*key) < self.rows.len())
    }

    /// Adds `value` under the next key and writes that key into it. Refused
    /// with `StorageFault` where the keys are used up; table and `value` are
    /// then left as they were.
    fn insert(&mut self, value: &mut Post) -> (done: Result<(), Error>) {
        if self.last_id == i32::MAX {
            return Err(Error::StorageFault);
        }
        let id: i32 = self.last_id + 1;
        value.id = id;
        self.last_id = id;
        self.rows.push(value.clone());
        proof {
            assert(self@.rows =~= old(self)@.rows.push(value@));
        }
        Ok(())
    }

    /// Replaces title, content, tags and publication flag of the row with the
    /// key of `value`; owner and creation time stay. Does nothing where no row
    /// has that key.
    fn update(&mut self, value: &Post) -> (done: Result<(), Error>) {
        let at = self.position_of_id(value.id);
        if at >= self.rows.len() {
            return Ok(());
        }
        let mut row = value.clone();
        row.owner_id = self.rows[at].owner_id;
        row.created_on = self.rows[at].created_on;
        self.rows.set(at, row);
        proof {
            let before = old(self)@;
            before.lemma_id_at(at as int);
            assert(self@.rows =~= before.rows.update(
                at as int,
                PostTable::revised(before.rows[at as int], value@),
            ));
        }
        Ok(())
    }

    /// Removes the row with the key of `post`, if there is one, and hands `post` back.
    fn delete(&mut self, post: Post) -> (done: Result<Post, Error>) {
        let at = self.position_of_id(post.id);
        if at < self.rows.len() {
            self.rows.remove(at);
            proof {
                assert(self@.rows =~= old(self)@.rows.remove(at as int));
            }
        }
        Ok(post)
    }
}

} // verus!
