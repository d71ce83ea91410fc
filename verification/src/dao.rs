//! Tables whose rows are found by store-assigned keys: what such a table
//! is to contracts, what it offers, and the tables of users and of posts.

pub mod posts;
pub mod users;

pub use posts::{
    lemma_filter_exact, lemma_filter_step, lemma_page_len, lemma_page_rows, lemma_page_step,
    lemma_tag_order_irrelevant, listed_for, owned_by, page_of, tagged_for, PostDao, PostTable,
};
pub use users::{UserDao, UserTable};

use vstd::prelude::*;
use crate::errors::Error;
use crate::model::{Post, User};

verus! {

/// A value that its table finds by a key.
pub trait HasKey<K>: Sized {
    /// The key of the value.
    spec fn key(&self) -> K;

    /// The value under another key, all else the same.
    spec fn rekeyed(&self, new_key: K) -> Self;

    fn get_key(&self) -> (key: K)
        ensures
            key == self.key(),
    ;

    fn set_key(&mut self, new_key: K)
        ensures
            *final(self) == old(self).rekeyed(new_key),
            final(self).key() == new_key,
    ;
}

/// What has come of adding rows to a table one after the other.
pub struct Batch<S, R> {
    /// The table after the rows that were added.
    pub table: S,
    /// The rows that were added, as the table holds them.
    pub stored: Seq<R>,
    /// Why the first row that was not added was refused, if one was.
    pub refusal: Option<Error>,
}

/// `table` after the rows of `rows` were added in order, up to the first
/// that it refuses.
pub open spec fn insert_all<D: Table<T, K>, T: View, K>(
    table: D::V,
    rows: Seq<T::V>,
) -> Batch<D::V, T::V>
    decreases rows.len(),
{
    if rows.len() == 0 {
        Batch { table, stored: Seq::empty(), refusal: None }
    } else {
        let before = insert_all::<D, T, K>(table, rows.drop_last());
        if before.refusal is Some {
            before
        } else {
            match D::insert_refusal(before.table, rows.last()) {
                Some(e) => Batch { refusal: Some(e), ..before },
                None => Batch {
                    table: D::inserted(before.table, rows.last()),
                    stored: before.stored.push(D::stored(before.table, rows.last())),
                    refusal: None,
                },
            }
        }
    }
}

/// `table` after the rows with the keys of `keys` were removed in order.
pub open spec fn delete_all<D: Table<T, K>, T: View, K>(table: D::V, keys: Seq<K>) -> D::V
    decreases keys.len(),
{
    if keys.len() == 0 {
        table
    } else {
        D::deleted(delete_all::<D, T, K>(table, keys.drop_last()), keys.last())
    }
}

/// Once a row was refused, the rows after it are not looked at.
pub proof fn lemma_insert_all_stops<D: Table<T, K>, T: View, K>(
    table: D::V,
    rows: Seq<T::V>,
    i: int,
)
    requires
        0 <= i <= rows.len(),
        insert_all::<D, T, K>(table, rows.take(i)).refusal is Some,
    ensures
        insert_all::<D, T, K>(table, rows) == insert_all::<D, T, K>(table, rows.take(i)),
    decreases rows.len() - i,
{
    if i == rows.len() {
        assert(rows.take(i) =~= rows);
    } else {
        assert(rows.take(i + 1).drop_last() =~= rows.take(i));
        lemma_insert_all_stops::<D, T, K>(table, rows, i + 1);
    }
}

/// What a table of rows of type `T` with keys of type `K` is to contracts:
/// its rows, and what adding, changing and removing a row make of it.
pub trait Table<T: View, K>: View + Sized {
    /// What every table of this kind keeps true of itself.
    spec fn wf(table: Self::V) -> bool;

    /// The rows of the table, in insertion order.
    spec fn rows(table: Self::V) -> Seq<T::V>;

    /// The row with key `key`, if there is one.
    spec fn find(table: Self::V, key: K) -> Option<T::V>;

    /// Why `row` cannot be added, if it cannot.
    spec fn insert_refusal(table: Self::V, row: T::V) -> Option<Error>;

    /// The table after `row` was added under the next key.
    spec fn inserted(table: Self::V, row: T::V) -> Self::V;

    /// `row` as the table holds it once it was added: under the next key.
    spec fn stored(table: Self::V, row: T::V) -> T::V;

    /// Why the row with the key of `row` cannot be changed to `row`, if it cannot.
    spec fn update_refusal(table: Self::V, row: T::V) -> Option<Error>;

    /// The table after the row with the key of `row` was changed to `row`.
    spec fn updated(table: Self::V, row: T::V) -> Self::V;

    /// The table without the row with key `key`.
    spec fn deleted(table: Self::V, key: K) -> Self::V;
}

/// A table of rows of type `T`, each found by its key of type `K`. The
/// table hands out the keys.
pub trait Dao<T: HasKey<K> + View, K>: Table<T, K> {
    /// All rows, in insertion order.
    fn get_all(&self) -> (all: Result<Vec<T>, Error>)
        ensures
            all matches Ok(rows) && rows@.map_values(|row: T| row@) == Self::rows(self@),
    ;

    /// Adds `value` under the next key and writes that key into it. Where
    /// the table refuses, it and `value` are left as they were.
    fn insert(&mut self, value: &mut T) -> (done: Result<(), Error>)
        requires
            Self::wf(old(self)@),
        ensures
            Self::wf(final(self)@),
            match Self::insert_refusal(old(self)@, old(value)@) {
                Some(e) => done == Err::<(), Error>(e) && final(self)@ == old(self)@
                    && *final(value) == *old(value),
                None => {
                    &&& done == Ok::<(), Error>(())
                    &&& final(self)@ == Self::inserted(old(self)@, old(value)@)
                    &&& final(value)@ == Self::stored(old(self)@, old(value)@)
                },
            },
    ;

    /// Changes the row with the key of `value` to `value`. Where the table
    /// refuses, it is left as it was.
    fn update(&mut self, value: &T) -> (done: Result<(), Error>)
        requires
            Self::wf(old(self)@),
        ensures
            Self::wf(final(self)@),
            match Self::update_refusal(old(self)@, value@) {
                Some(e) => done == Err::<(), Error>(e) && final(self)@ == old(self)@,
                None => done == Ok::<(), Error>(()) && final(self)@ == Self::updated(old(self)@, value@),
            },
    ;

    /// The row with key `key`; `NotFound` if there is none.
    fn get_one(&self, key: &K) -> (found: Result<T, Error>)
        requires
            Self::wf(self@),
        ensures
            match Self::find(self@, *key) {
                Some(row) => found matches Ok(value) && value@ == row,
                None => found == Err::<T, Error>(Error::NotFound),
            },
    ;

    /// Whether a row has key `key`.
    fn has_key(&self, key: &K) -> (found: Result<bool, Error>)
        requires
            Self::wf(self@),
        ensures
            found == Ok::<bool, Error>(Self::find(self@, *key) is Some),
    ;

    /// Removes the row with the key of `value`, if there is one, and hands
    /// `value` back.
    fn delete(&mut self, value: T) -> (done: Result<T, Error>)
        requires
            Self::wf(old(self)@),
        ensures
            Self::wf(final(self)@),
            final(self)@ == Self::deleted(old(self)@, value.key()),
            done == Ok::<T, Error>(value),
    ;

    /// Removes the rows with the keys of `values`, one after the other.
    fn delete_many(&mut self, values: Vec<T>) -> (done: Result<(), Error>)
        requires
            Self::wf(old(self)@),
        ensures
            Self::wf(final(self)@),
            done == Ok::<(), Error>(()),
            final(self)@ == delete_all::<Self, T, K>(old(self)@, values@.map_values(|value: T| value.key())),
    {
        let ghost keys = values@.map_values(|value: T| value.key());
        for value in it: values
            invariant
                it.seq() == values@,
                keys == values@.map_values(|value: T| value.key()),
                Self::wf(self@),
                self@ == delete_all::<Self, T, K>(old(self)@, keys.take(it.index() as int)),
        {
            proof {
                let shown = keys.take(it.index() + 1);
                assert(shown.drop_last() =~= keys.take(it.index() as int));
            }
            match self.delete(value) {
                Ok(_) => {},
                Err(e) => {
                    return Err(e);
                },
            }
        }
        proof {
            assert(keys.take(values@.len() as int) =~= keys);
        }
        Ok(())
    }

    /// Adds the rows of `values` in order and returns them as the table
    /// holds them. Stops at the first row that the table refuses and returns
    /// why; the rows before it stay added.
    fn insert_many(&mut self, values: Vec<T>) -> (done: Result<Vec<T>, Error>)
        requires
            Self::wf(old(self)@),
        ensures
            Self::wf(final(self)@),
            final(self)@ == insert_all::<Self, T, K>(old(self)@, values@.map_values(|value: T| value@)).table,
            match insert_all::<Self, T, K>(old(self)@, values@.map_values(|value: T| value@)).refusal {
                Some(e) => done == Err::<Vec<T>, Error>(e),
                None => done matches Ok(added) && added@.map_values(|value: T| value@)
                    == insert_all::<Self, T, K>(old(self)@, values@.map_values(|value: T| value@)).stored,
            },
    {
        let ghost rows = values@.map_values(|value: T| value@);
        let mut added: Vec<T> = Vec::new();
        proof {
            assert(added@.map_values(|value: T| value@) =~= Seq::<T::V>::empty());
        }
        for value in it: values
            invariant
                it.seq() == values@,
                rows == values@.map_values(|value: T| value@),
                Self::wf(self@),
                insert_all::<Self, T, K>(old(self)@, rows.take(it.index() as int)) == (Batch {
                    table: self@,
                    stored: added@.map_values(|value: T| value@),
                    refusal: None,
                }),
        {
            proof {
                let shown = rows.take(it.index() + 1);
                assert(shown.drop_last() =~= rows.take(it.index() as int));
            }
            let ghost before = added@.map_values(|value: T| value@);
            let mut value = value;
            match self.insert(&mut value) {
                Ok(()) => {
                    added.push(value);
                    proof {
                        assert(added@.map_values(|value: T| value@) =~= before.push(value@));
                    }
                },
                Err(e) => {
                    proof {
                        lemma_insert_all_stops::<Self, T, K>(old(self)@, rows, it.index() + 1);
                    }
                    return Err(e);
                },
            }
        }
        proof {
            assert(rows.take(values@.len() as int) =~= rows);
        }
        Ok(added)
    }
}

impl HasKey<i32> for User {
    open spec fn key(&self) -> i32 {
        self.id
    }

    open spec fn rekeyed(&self, new_key: i32) -> User {
        User { id: new_key, ..*self }
    }

    fn get_key(&self) -> (key: i32) {
        self.id
    }

    fn set_key(&mut self, new_key: i32) {
        self.id = new_key;
    }
}

impl HasKey<i32> for Post {
    open spec fn key(&self) -> i32 {
        self.id
    }

    open spec fn rekeyed(&self, new_key: i32) -> Post {
        Post { id: new_key, ..*self }
    }

    fn get_key(&self) -> (key: i32) {
        self.id
    }

    fn set_key(&mut self, new_key: i32) {
        self.id = new_key;
    }
}

} // verus!
