//! The table of users: keys grow along the rows and no name occurs twice.

use vstd::prelude::*;
use crate::dao::{Dao, Table};
use crate::errors::Error;
use crate::model::{User, UserView};

verus! {

/// The rows of the user table in insertion order, and the last key handed out.
pub struct UserTable {
    pub rows: Seq<UserView>,
    pub last_key: i32,
}

impl UserTable {
    /// A table without rows that has handed out no key yet.
    pub open spec fn empty() -> UserTable {
        UserTable { rows: Seq::empty(), last_key: 0 }
    }

    /// Keys are positive, at most `last_key`, and grow along the rows; no name occurs twice.
    pub open spec fn wf(self) -> bool {
        &&& 0 <= self.last_key
        &&& forall|i: int| 0 <= i < self.rows.len() ==> 1 <= #[trigger] self.rows[i].id <= self.last_key
        &&& forall|i: int, j: int|
            0 <= i < j < self.rows.len() ==> #[trigger] self.rows[i].id < #[trigger] self.rows[j].id
        &&& forall|i: int, j: int|
            0 <= i < j < self.rows.len() ==> #[trigger] self.rows[i].name != #[trigger] self.rows[j].name
    }

    /// The position of the row with key `id`, or the number of rows if there is none.
    pub open spec fn index_of_id(self, id: i32) -> int {
        if exists|i: int| 0 <= i < self.rows.len() && #[trigger] self.rows[i].id == id {
            choose|i: int| 0 <= i < self.rows.len() && #[trigger] self.rows[i].id == id
        } else {
            self.rows.len() as int
        }
    }

    /// The position of the row with name `name`, or the number of rows if there is none.
    pub open spec fn index_of_name(self, name: Seq<char>) -> int {
        if exists|i: int| 0 <= i < self.rows.len() && #[trigger] self.rows[i].name == name {
            choose|i: int| 0 <= i < self.rows.len() && #[trigger] self.rows[i].name == name
        } else {
            self.rows.len() as int
        }
    }

    /// The row with key `id`, if there is one.
    pub open spec fn by_id(self, id: i32) -> Option<UserView> {
        if self.index_of_id(id) < self.rows.len() {
            Some(self.rows[self.index_of_id(id)])
        } else {
            None
        }
    }

    /// The row with name `name`, if there is one. Names are compared character by character.
    pub open spec fn by_name(self, name: Seq<char>) -> Option<UserView> {
        if self.index_of_name(name) < self.rows.len() {
            Some(self.rows[self.index_of_name(name)])
        } else {
            None
        }
    }

    /// Why a row named `name` cannot be added, if it cannot.
    pub open spec fn insert_refusal(self, name: Seq<char>) -> Option<Error> {
        if self.by_name(name) is Some {
            Some(Error::Conflict)
        } else if self.last_key == i32::MAX {
            Some(Error::StorageFault)
        } else {
            None
        }
    }

    /// The table after a row with the next key was added at its end.
    pub open spec fn with_new(self, name: Seq<char>, pw_hash: Seq<char>) -> UserTable {
        let id = (self.last_key + 1) as i32;
        UserTable { rows: self.rows.push(UserView { id, name, pw_hash }), last_key: id }
    }

    /// Why the row with key `id` cannot take the name `name`, if it cannot.
    pub open spec fn update_refusal(self, id: i32, name: Seq<char>) -> Option<Error> {
        if self.by_id(id) is Some && self.by_name(name) is Some && self.by_name(name).unwrap().id != id {
            Some(Error::Conflict)
        } else {
            None
        }
    }

    /// The table after name and hash of the row with key `row.id` were replaced;
    /// the table itself where no row has that key.
    pub open spec fn with_updated(self, row: UserView) -> UserTable {
        if self.by_id(row.id) is Some {
            UserTable { rows: self.rows.update(self.index_of_id(row.id), row), ..self }
        } else {
            self
        }
    }

    /// The table without the row with key `id`.
    pub open spec fn without(self, id: i32) -> UserTable {
        if self.by_id(id) is Some {
            UserTable { rows: self.rows.remove(self.index_of_id(id)), ..self }
        } else {
            self
        }
    }

    /// In a well-formed table a key determines its row.
    pub proof fn lemma_id_at(self, i: int)
        requires
            self.wf(),
            0 <= i < self.rows.len(),
        ensures
            self.index_of_id(self.rows[i].id) == i,
            self.by_id(self.rows[i].id) == Some(self.rows[i]),
    {
    }

    /// Adding a user keeps the table well-formed and every earlier row
    /// findable as before; the new row is found by its key and by its name.
    pub proof fn lemma_with_new(self, name: Seq<char>, pw_hash: Seq<char>)
        requires
            self.wf(),
            self.insert_refusal(name) is None,
        ensures
            self.with_new(name, pw_hash).wf(),
            self.with_new(name, pw_hash).by_name(name) == Some(self.with_new(name, pw_hash).rows.last()),
            self.with_new(name, pw_hash).by_id((self.last_key + 1) as i32) == Some(
                self.with_new(name, pw_hash).rows.last(),
            ),
            forall|id: i32| #[trigger]
                self.by_id(id) is Some ==> self.with_new(name, pw_hash).by_id(id) == self.by_id(id),
            forall|other: Seq<char>|
                other != name ==> #[trigger] self.with_new(name, pw_hash).by_name(other) == self.by_name(other),
    {
        let grown = self.with_new(name, pw_hash);
        let last = self.rows.len() as int;
        assert forall|i: int| 0 <= i < self.rows.len() implies #[trigger] self.rows[i].name != name by {
            if self.rows[i].name == name {
                self.lemma_name_at(i);
            }
        }
        grown.lemma_name_at(last);
        grown.lemma_id_at(last);
        assert forall|id: i32| #[trigger] self.by_id(id) is Some implies grown.by_id(id) == self.by_id(id) by {
            let k = self.index_of_id(id);
            grown.lemma_id_at(k);
        }
        assert forall|other: Seq<char>| other != name implies #[trigger] grown.by_name(other)
            == self.by_name(other) by {
            if self.by_name(other) is Some {
                let k = self.index_of_name(other);
                grown.lemma_name_at(k);
            } else {
                if grown.by_name(other) is Some {
                    let k = grown.index_of_name(other);
                    self.lemma_name_at(k);
                }
            }
        }
    }

    /// In a well-formed table a name determines its row.
    pub proof fn lemma_name_at(self, i: int)
        requires
            self.wf(),
            0 <= i < self.rows.len(),
        ensures
            self.index_of_name(self.rows[i].name) == i,
            self.by_name(self.rows[i].name) == Some(self.rows[i]),
    {
    }
}

/// The table of users.
pub struct UserDao {
    rows: Vec<User>,
    last_id: i32,
}

impl View for UserDao {
    type V = UserTable;

    closed spec fn view(&self) -> UserTable {
        UserTable { rows: self.rows.deep_view(), last_key: self.last_id }
    }
}

impl UserDao {
    /// An empty table; the first key it hands out is 1.
    pub fn new() -> (dao: UserDao)
        ensures
            dao@ == UserTable::empty(),
            dao@.wf(),
    {
        let dao = UserDao { rows: Vec::new(), last_id: 0 };
        assert(dao@.rows =~= Seq::empty());
        dao
    }

    /// The table that holds `rows` and has handed out `last_id` as its last
    /// key, if that is a well-formed table: keys positive, at most
    /// `last_id` and growing along the rows, and no name twice.
    pub fn restore(rows: Vec<User>, last_id: i32) -> (dao: Option<UserDao>)
        ensures
            dao is Some <==> (UserTable { rows: rows.deep_view(), last_key: last_id }).wf(),
            dao matches Some(table) ==> table@ == (UserTable { rows: rows.deep_view(), last_key: last_id }),
    {
        let ghost table = UserTable { rows: rows.deep_view(), last_key: last_id };
        if last_id < 0 {
            return None;
        }
        let mut i: usize = 0;
        while i < rows.len()
            invariant
                i <= rows.len(),
                0 <= last_id,
                table == (UserTable { rows: rows.deep_view(), last_key: last_id }),
                forall|a: int| 0 <= a < i ==> 1 <= #[trigger] table.rows[a].id <= last_id,
                forall|a: int, b: int| 0 <= a < b < i ==> #[trigger] table.rows[a].id < #[trigger] table.rows[b].id,
                forall|a: int, b: int|
                    0 <= a < b < i ==> #[trigger] table.rows[a].name != #[trigger] table.rows[b].name,
            decreases rows.len() - i,
        {
            if rows[i].id < 1 || rows[i].id > last_id {
                assert(!(1 <= table.rows[i as int].id <= last_id));
                return None;
            }
            if i > 0 && rows[i - 1].id >= rows[i].id {
                assert(!(table.rows[i - 1].id < table.rows[i as int].id));
                return None;
            }
            let mut j: usize = 0;
            while j < i
                invariant
                    j <= i < rows.len(),
                    table == (UserTable { rows: rows.deep_view(), last_key: last_id }),
                    forall|a: int| 0 <= a < j ==> #[trigger] table.rows[a].name != table.rows[i as int].name,
                decreases i - j,
            {
                if rows[j].name == rows[i].name {
                    assert(table.rows[j as int].name == table.rows[i as int].name);
                    return None;
                }
                j += 1;
            }
            i += 1;
        }
        Some(UserDao { rows, last_id })
    }

    /// Position of the row with key `id`, or the number of rows.
    fn position_of_id(&self, id: i32) -> (at: usize)
        requires
            self@.wf(),
        ensures
            at == self@.index_of_id(id),
            at <= self.rows.len(),
    {
        let mut i: usize = 0;
        while i < self.rows.len()
            invariant
                i <= self.rows.len(),
                self@.wf(),
                forall|j: int| 0 <= j < i ==> self@.rows[j].id != id,
            decreases self.rows.len() - i,
        {
            if self.rows[i].id == id {
                proof {
                    self@.lemma_id_at(i as int);
                }
                return i;
            }
            i += 1;
        }
        i
    }

    /// Position of the row named `name`, or the number of rows.
    fn position_of_name(&self, name: &str) -> (at: usize)
        requires
            self@.wf(),
        ensures
            at == self@.index_of_name(name@),
            at <= self.rows.len(),
    {
        let wanted: String = name.to_owned();
        let mut i: usize = 0;
        while i < self.rows.len()
            invariant
                i <= self.rows.len(),
                self@.wf(),
                wanted@ == name@,
                forall|j: int| 0 <= j < i ==> self@.rows[j].name != name@,
            decreases self.rows.len() - i,
        {
            if self.rows[i].name == wanted {
                proof {
                    self@.lemma_name_at(i as int);
                }
                return i;
            }
            i += 1;
        }
        i
    }

    /// The row named `name`, if there is one.
    pub fn find_by_name(&self, name: &str) -> (found: Option<User>)
        requires
            self@.wf(),
        ensures
            found.deep_view() == self@.by_name(name@),
    {
        let at = self.position_of_name(name);
        if at < self.rows.len() {
            Some(self.rows[at].clone())
        } else {
            None
        }
    }
}

impl Clone for UserDao {
    fn clone(&self) -> (copy: UserDao)
        ensures
            copy@ == self@,
    {
        let mut rows: Vec<User> = Vec::new();
        let mut i: usize = 0;
        while i < self.rows.len()
            invariant
                i <= self.rows.len(),
                rows.len() == i,
                forall|j: int| 0 <= j < i ==> rows[j]@ == self.rows[j]@,
            decreases self.rows.len() - i,
        {
            rows.push(self.rows[i].clone());
            i += 1;
        }
        assert(rows.deep_view() =~= self.rows.deep_view());
        UserDao { rows, last_id: self.last_id }
    }
}

impl Table<User, i32> for UserDao {
    open spec fn wf(table: UserTable) -> bool {
        table.wf()
    }

    open spec fn rows(table: UserTable) -> Seq<UserView> {
        table.rows
    }

    open spec fn find(table: UserTable, key: i32) -> Option<UserView> {
        table.by_id(key)
    }

    open spec fn insert_refusal(table: UserTable, row: UserView) -> Option<Error> {
        table.insert_refusal(row.name)
    }

    open spec fn inserted(table: UserTable, row: UserView) -> UserTable {
        table.with_new(row.name, row.pw_hash)
    }

    open spec fn stored(table: UserTable, row: UserView) -> UserView {
        UserView { id: (table.last_key + 1) as i32, ..row }
    }

    open spec fn update_refusal(table: UserTable, row: UserView) -> Option<Error> {
        table.update_refusal(row.id, row.name)
    }

    open spec fn updated(table: UserTable, row: UserView) -> UserTable {
        table.with_updated(row)
    }

    open spec fn deleted(table: UserTable, key: i32) -> UserTable {
        table.without(key)
    }
}

/// Users are added under a name that no other user has: a taken name is
/// refused with `Conflict`, used-up keys with `StorageFault`. An update
/// replaces name and hash, does nothing where no row has the key, and is
/// refused with `Conflict` where another row holds the name.
impl Dao<User, i32> for UserDao {
    /// All rows, in insertion order.
    fn get_all(&self) -> (all: Result<Vec<User>, Error>) {
        let mut users: Vec<User> = Vec::new();
        let mut i: usize = 0;
        while i < self.rows.len()
            invariant
                i <= self.rows.len(),
                users.len() == i,
                forall|j: int| 0 <= j < i ==> users[j]@ == self.rows[j]@,
            decreases self.rows.len() - i,
        {
            users.push(self.rows[i].clone());
            i += 1;
        }
        Ok(users)
    }

    /// The row with key `key`; `NotFound` if there is none.
    fn get_one(&self, key: &i32) -> (found: Result<User, Error>) {
        let at = self.position_of_id(*key);
        if at < self.rows.len() {
            Ok(self.rows[at].clone())
        } else {
            Err(Error::NotFound)
        }
    }

    /// Whether a row has key `key`.
    fn has_key(&self, key: &i32) -> (found: Result<bool, Error>) {
        Ok(self.position_of_id(*key) < self.rows.len())
    }

    /// Adds `value` under the next key and writes that key into it. Refused with
    /// `Conflict` where the name is taken and with `StorageFault` where the keys
    /// are used up; table and `value` are then left as they were.
    fn insert(&mut self, value: &mut User) -> (done: Result<(), Error>) {
        let at = self.position_of_name(value.name.as_str());
        if at < self.rows.len() {
            return Err(Error::Conflict);
        }
        if self.last_id == i32::MAX {
            return Err(Error::StorageFault);
        }
        let id: i32 = self.last_id + 1;
        value.id = id;
        self.last_id = id;
        self.rows.push(value.clone());
        proof {
            let before = old(self)@;
            let after = self@;
            assert(after.rows =~= before.rows.push(value@));
            assert forall|i: int, j: int| 0 <= i < j < after.rows.len() implies #[trigger] after.rows[i].name
                != #[trigger] after.rows[j].name by {
                if j == before.rows.len() {
                    if before.rows[i].name == value@.name {
                        before.lemma_name_at(i);
                    }
                }
            }
        }
        Ok(())
    }

    /// Replaces name and hash of the row with the key of `value`; does nothing
    /// where no row has that key. Refused with `Conflict` where another row
    /// holds the name.
    fn update(&mut self, value: &User) -> (done: Result<(), Error>) {
        let at = self.position_of_id(value.id);
        if at >= self.rows.len() {
            return Ok(());
        }
        let named = self.position_of_name(value.name.as_str());
        if named < self.rows.len() && named != at {
            proof {
                self@.lemma_id_at(named as int);
                self@.lemma_id_at(at as int);
            }
            return Err(Error::Conflict);
        }
        proof {
            if named < self.rows.len() {
                self@.lemma_id_at(at as int);
            }
        }
        self.rows.set(at, value.clone());
        proof {
            let before = old(self)@;
            let after = self@;
            assert(after.rows =~= before.rows.update(at as int, value@));
            before.lemma_id_at(at as int);
            assert forall|i: int, j: int| 0 <= i < j < after.rows.len() implies #[trigger] after.rows[i].name
                != #[trigger] after.rows[j].name by {
                if i == at && before.rows[j].name == value@.name {
                    before.lemma_name_at(j);
                }
                if j == at && before.rows[i].name == value@.name {
                    before.lemma_name_at(i);
                }
            }
        }
        Ok(())
    }

    /// Removes the row with the key of `user`, if there is one, and hands `user` back.
    fn delete(&mut self, user: User) -> (done: Result<User, Error>) {
        let at = self.position_of_id(user.id);
        if at < self.rows.len() {
            self.rows.remove(at);
            proof {
                let before = old(self)@;
                let after = self@;
                assert(after.rows =~= before.rows.remove(at as int));
            }
        }
        Ok(user)
    }
}

} // verus!
