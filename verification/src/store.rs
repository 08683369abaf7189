//! An in-memory table store: named tables of rows, each row a map from
//! column to value.

use crate::error::{fails_with, ErrorView, KituError};
use std::collections::HashMap;
use vstd::hash_map::StringHashMap;
use vstd::prelude::*;

verus! {

/// A table: its name and its rows in insertion order.
#[derive(Debug, Clone, PartialEq, Eq)]
pub struct Table {
    /// The name under which the store holds the table.
    pub name: String,
    /// The rows, oldest first; each maps a column to its value.
    pub rows: Vec<HashMap<String, String>>,
}

impl Default for Table {
    /// The table without a name and without rows.
    fn default() -> (table: Table)
        ensures
            table.name@ == Seq::<char>::empty(),
            table.rows@ == Seq::<HashMap<String, String>>::empty(),
    {
        Table { name: String::new(), rows: Vec::new() }
    }
}

/// The failure reported when a table is created twice.
pub open spec fn table_exists() -> ErrorView {
    ErrorView::InvalidInput("table already exists"@)
}

/// The failure reported when a table is not there.
pub open spec fn missing_table() -> ErrorView {
    ErrorView::InvalidInput("missing table"@)
}

/// A store of tables by name.
pub struct SqliteStore {
    tables: Vec<Table>,
    index: StringHashMap<usize>,
}

impl View for SqliteStore {
    type V = Map<Seq<char>, Seq<HashMap<String, String>>>;

    /// The rows of each table, by the table's name.
    closed spec fn view(&self) -> Map<Seq<char>, Seq<HashMap<String, String>>> {
        Map::new(
            |name: Seq<char>| self.index@.contains_key(name),
            |name: Seq<char>| self.tables@[self.index@[name] as int].rows@,
        )
    }
}

impl Default for SqliteStore {
    /// A store without tables.
    fn default() -> (store: SqliteStore)
        ensures
            store.well_formed(),
            store@ == Map::<Seq<char>, Seq<HashMap<String, String>>>::empty(),
    {
        SqliteStore::new()
    }
}

impl SqliteStore {
    /// The store's invariant: every indexed name leads to the table of that name.
    pub closed spec fn well_formed(&self) -> bool {
        forall|name: Seq<char>| #[trigger]
            self.index@.contains_key(name) ==> self.index@[name] < self.tables@.len()
                && self.tables@[self.index@[name] as int].name@ == name
    }

    /// A store without tables.
    pub fn new() -> (store: SqliteStore)
        ensures
            store.well_formed(),
            store@ == Map::<Seq<char>, Seq<HashMap<String, String>>>::empty(),
    {
        let store = SqliteStore { tables: Vec::new(), index: StringHashMap::new() };
        assert(store@ =~= Map::<Seq<char>, Seq<HashMap<String, String>>>::empty());
        store
    }

    /// Adds an empty table named `name`. Fails, and changes nothing, if the
    /// store has a table of that name.
    pub fn create_table(&mut self, name: &str) -> (outcome: Result<(), KituError>)
        requires
            old(self).well_formed(),
        ensures
            final(self).well_formed(),
            old(self)@.contains_key(name@) ==> fails_with(outcome, table_exists()) && final(self)@
                == old(self)@,
            !old(self)@.contains_key(name@) ==> outcome is Ok && final(self)@ == old(self)@.insert(
                name@,
                Seq::empty(),
            ),
    {
        if self.index.contains_key(name) {
            return Err(KituError::InvalidInput("table already exists"));
        }
        let at = self.tables.len();
        self.tables.push(Table { name: name.to_owned(), rows: Vec::new() });
        self.index.insert(name.to_owned(), at);
        assert(self@ =~= old(self)@.insert(name@, Seq::empty()));
        Ok(())
    }

    /// Appends `row` to the table named `table`. Fails, and changes nothing,
    /// if the store has no such table.
    pub fn insert(&mut self, table: &str, row: HashMap<String, String>) -> (outcome: Result<
        (),
        KituError,
    >)
        requires
            old(self).well_formed(),
        ensures
            final(self).well_formed(),
            !old(self)@.contains_key(table@) ==> fails_with(outcome, missing_table())
                && final(self)@ == old(self)@,
            old(self)@.contains_key(table@) ==> outcome is Ok && final(self)@ == old(self)@.insert(
                table@,
                old(self)@[table@].push(row),
            ),
    {
        let at = match self.index.get(table) {
            Some(at) => *at,
            None => {
                return Err(KituError::InvalidInput("missing table"));
            },
        };
        self.tables[at].rows.push(row);
        assert(self@ =~= old(self)@.insert(table@, old(self)@[table@].push(row)));
        Ok(())
    }

    /// All rows of the table named `table`, oldest first. Fails if the store
    /// has no such table.
    pub fn query_all(&self, table: &str) -> (outcome: Result<&[HashMap<String, String>], KituError>)
        requires
            self.well_formed(),
        ensures
            !self@.contains_key(table@) ==> fails_with(outcome, missing_table()),
            self@.contains_key(table@) ==> (outcome matches Ok(rows) && rows@ == self@[table@]),
    {
        match self.index.get(table) {
            Some(at) => Ok(self.tables[*at].rows.as_slice()),
            None => Err(KituError::InvalidInput("missing table")),
        }
    }
}

} // verus!
