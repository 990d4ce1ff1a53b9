//! A lookup table: each distinct text value is stored once and stands for
//! one row id. Both the table of session identities and the table of URL
//! origins are of this shape.

use vstd::prelude::*;
use crate::error::ServiceError;
use crate::plan::Reply;

verus! {

/// One row of a lookup table, as contracts see it.
pub struct Row {
    pub id: int,
    pub value: Seq<char>,
}

/// The row that stands for "no value": id 0 with the empty text.
pub open spec fn sentinel() -> Row {
    Row { id: 0, value: Seq::<char>::empty() }
}

/// Row ids grow strictly from each row to the next.
pub open spec fn ids_ascending(rows: Seq<Row>) -> bool {
    forall|i: int, j: int| 0 <= i < j < rows.len() ==> rows[i].id < rows[j].id
}

/// No value is stored twice.
pub open spec fn values_unique(rows: Seq<Row>) -> bool {
    forall|i: int, j: int| 0 <= i < j < rows.len() ==> rows[i].value != rows[j].value
}

/// What holds of every lookup table: ids ascend, values are unique, and a
/// table that has been created starts with the sentinel row.
pub open spec fn table_wf(rows: Seq<Row>) -> bool {
    &&& ids_ascending(rows)
    &&& values_unique(rows)
    &&& rows.len() > 0 ==> rows[0] == sentinel()
    &&& forall|i: int| 0 <= i < rows.len() ==> rows[i].id <= i64::MAX
}

/// Some row holds `value`.
pub open spec fn has_value(rows: Seq<Row>, value: Seq<char>) -> bool {
    exists|i: int| 0 <= i < rows.len() && rows[i].value == value
}

/// Some row has the id `id`.
pub open spec fn has_id(rows: Seq<Row>, id: int) -> bool {
    exists|i: int| 0 <= i < rows.len() && rows[i].id == id
}

/// The id of the row that holds `value`, if there is one.
pub open spec fn id_of(rows: Seq<Row>, value: Seq<char>) -> Option<int> {
    if has_value(rows, value) {
        Some(rows[choose|i: int| 0 <= i < rows.len() && rows[i].value == value].id)
    } else {
        None
    }
}

/// The value of the row with the id `id`, if there is one.
pub open spec fn value_of(rows: Seq<Row>, id: int) -> Option<Seq<char>> {
    if has_id(rows, id) {
        Some(rows[choose|i: int| 0 <= i < rows.len() && rows[i].id == id].value)
    } else {
        None
    }
}

/// The id that the next new row gets: one more than the largest in use.
pub open spec fn next_id(rows: Seq<Row>) -> int
    recommends
        rows.len() > 0,
{
    rows.last().id + 1
}

/// The table after `value` has been looked up or, where it was missing,
/// stored under the next id.
pub open spec fn stored(rows: Seq<Row>, value: Seq<char>) -> Seq<Row> {
    if has_value(rows, value) {
        rows
    } else {
        rows.push(Row { id: next_id(rows), value })
    }
}

/// Whether `value` can be looked up or stored: the table exists, and a new
/// row, if one is needed, still gets an id.
pub open spec fn can_store(rows: Seq<Row>, value: Seq<char>) -> bool {
    rows.len() > 0 && (has_value(rows, value) || next_id(rows) <= i64::MAX)
}

/// What the table answers when `value` is looked up in it: the id of its
/// row, or that no row holds it; a table that does not exist cannot be read.
pub open spec fn select_reply(rows: Seq<Row>, value: Seq<char>) -> Reply {
    if rows.len() == 0 {
        Reply::Failed
    } else {
        match id_of(rows, value) {
            Some(id) => Reply::Found(id as i64),
            None => Reply::Missing,
        }
    }
}

/// Whether `value` can be written to a new row: the table exists, no row
/// holds the value yet, and an id is left for the row.
pub open spec fn can_insert(rows: Seq<Row>, value: Seq<char>) -> bool {
    rows.len() > 0 && !has_value(rows, value) && next_id(rows) <= i64::MAX
}

/// What the table answers when asked to write `value` to a new row.
pub open spec fn insert_reply(rows: Seq<Row>, value: Seq<char>) -> Reply {
    if can_insert(rows, value) {
        Reply::Stored(next_id(rows) as i64)
    } else {
        Reply::Failed
    }
}

/// The table after it was asked to write `value` to a new row.
pub open spec fn after_insert(rows: Seq<Row>, value: Seq<char>) -> Seq<Row> {
    if can_insert(rows, value) {
        rows.push(Row { id: next_id(rows), value })
    } else {
        rows
    }
}

/// The rows of a well-formed table, from the first one on, are a
/// well-formed table, and none of their ids is negative.
pub proof fn lemma_prefix_wf(rows: Seq<Row>, len: int)
    requires
        table_wf(rows),
        0 <= len <= rows.len(),
    ensures
        table_wf(rows.take(len)),
        forall|i: int| 0 <= i < rows.len() ==> 0 <= #[trigger] rows[i].id,
{
    assert forall|i: int| 0 <= i < rows.len() implies 0 <= #[trigger] rows[i].id by {
        if i > 0 {
            assert(rows[0].id < rows[i].id);
        }
    }
}

/// In a well-formed table the row at `i` is the one that `id_of` and
/// `value_of` find.
pub proof fn lemma_row_found(rows: Seq<Row>, i: int)
    requires
        table_wf(rows),
        0 <= i < rows.len(),
    ensures
        id_of(rows, rows[i].value) == Some(rows[i].id),
        value_of(rows, rows[i].id) == Some(rows[i].value),
{
    assert(has_value(rows, rows[i].value));
    assert(has_id(rows, rows[i].id));
    let a = choose|a: int| 0 <= a < rows.len() && rows[a].value == rows[i].value;
    assert(a == i) by {
        if a < i {
            assert(rows[a].value != rows[i].value);
        } else if i < a {
            assert(rows[i].value != rows[a].value);
        }
    }
    let b = choose|b: int| 0 <= b < rows.len() && rows[b].id == rows[i].id;
    assert(b == i) by {
        if b < i {
            assert(rows[b].id < rows[i].id);
        } else if i < b {
            assert(rows[i].id < rows[b].id);
        }
    }
}

/// A value that resolves to an id resolves to the id of a row, and that row
/// holds the value.
pub proof fn lemma_id_of_is_row(rows: Seq<Row>, value: Seq<char>)
    requires
        table_wf(rows),
        has_value(rows, value),
    ensures
        id_of(rows, value) is Some,
        has_id(rows, id_of(rows, value).unwrap()),
        value_of(rows, id_of(rows, value).unwrap()) == Some(value),
{
    let i = choose|i: int| 0 <= i < rows.len() && rows[i].value == value;
    lemma_row_found(rows, i);
}

/// Storing keeps a table well formed, keeps every row it had, and makes the
/// value resolve to an id.
pub proof fn lemma_stored_wf(rows: Seq<Row>, value: Seq<char>)
    requires
        table_wf(rows),
        can_store(rows, value),
    ensures
        table_wf(stored(rows, value)),
        has_value(stored(rows, value), value),
        rows.len() <= stored(rows, value).len(),
        forall|i: int| 0 <= i < rows.len() ==> stored(rows, value)[i] == rows[i],
        forall|v: Seq<char>| has_value(rows, v) ==> id_of(stored(rows, value), v) == id_of(rows, v),
        forall|id: int| has_id(rows, id) ==> value_of(stored(rows, value), id) == value_of(rows, id),
{
    let after = stored(rows, value);
    if has_value(rows, value) {
    } else {
        assert forall|i: int, j: int| 0 <= i < j < after.len() implies after[i].id < after[j].id by {
            if j == rows.len() && i < rows.len() - 1 {
                assert(rows[i].id < rows[rows.len() - 1].id);
            }
        }
        assert forall|i: int, j: int| 0 <= i < j < after.len() implies after[i].value
            != after[j].value by {
            if j == rows.len() {
                assert(rows[i].value != value);
            }
        }
        assert(after[rows.len() as int].value == value);
        assert forall|v: Seq<char>| has_value(rows, v) implies id_of(after, v) == id_of(
            rows,
            v,
        ) by {
            let i = choose|i: int| 0 <= i < rows.len() && rows[i].value == v;
            lemma_row_found(rows, i);
            assert(after[i] == rows[i]);
            lemma_row_found(after, i);
        }
        assert forall|id: int| has_id(rows, id) implies value_of(after, id) == value_of(
            rows,
            id,
        ) by {
            let i = choose|i: int| 0 <= i < rows.len() && rows[i].id == id;
            lemma_row_found(rows, i);
            assert(after[i] == rows[i]);
            lemma_row_found(after, i);
        }
    }
}

/// What the answer to a lookup tells about the table.
pub proof fn lemma_select_tells(rows: Seq<Row>, value: Seq<char>)
    requires
        table_wf(rows),
    ensures
        match select_reply(rows, value) {
            Reply::Found(id) => {
                &&& id >= 0
                &&& can_store(rows, value)
                &&& stored(rows, value) == rows
                &&& id_of(rows, value) == Some(id as int)
                &&& has_id(rows, id as int)
            },
            Reply::Missing => rows.len() > 0 && !has_value(rows, value),
            Reply::Failed => !can_store(rows, value),
            _ => false,
        },
{
    if rows.len() > 0 && has_value(rows, value) {
        let i = choose|i: int| 0 <= i < rows.len() && rows[i].value == value;
        lemma_row_found(rows, i);
        lemma_prefix_wf(rows, 0);
        assert(has_id(rows, rows[i].id));
    }
}

/// What the answer to the writing of a new row tells about the table.
pub proof fn lemma_insert_tells(rows: Seq<Row>, value: Seq<char>)
    requires
        table_wf(rows),
        rows.len() > 0,
        !has_value(rows, value),
    ensures
        table_wf(after_insert(rows, value)),
        match insert_reply(rows, value) {
            Reply::Stored(id) => {
                &&& id >= 0
                &&& can_store(rows, value)
                &&& after_insert(rows, value) == stored(rows, value)
                &&& id_of(stored(rows, value), value) == Some(id as int)
                &&& has_id(stored(rows, value), id as int)
            },
            Reply::Failed => !can_store(rows, value) && after_insert(rows, value) == rows,
            _ => false,
        },
{
    if can_insert(rows, value) {
        lemma_stored_wf(rows, value);
        let after = stored(rows, value);
        let n = rows.len() as int;
        assert(after[n].value == value);
        lemma_row_found(after, n);
        lemma_prefix_wf(after, 0);
        assert(has_id(after, after[n].id));
    }
}

/// Looking a value up or storing it twice gives one row for it and the same
/// id both times, and the second call changes nothing.
pub proof fn lemma_store_twice(rows: Seq<Row>, value: Seq<char>)
    requires
        table_wf(rows),
        can_store(rows, value),
    ensures
        can_store(stored(rows, value), value),
        stored(stored(rows, value), value) == stored(rows, value),
        id_of(stored(stored(rows, value), value), value) == id_of(stored(rows, value), value),
        id_of(stored(rows, value), value) is Some,
        stored(rows, value).filter(|r: Row| r.value == value).len() == 1,
{
    lemma_stored_wf(rows, value);
    let after = stored(rows, value);
    let i = choose|i: int| 0 <= i < after.len() && after[i].value == value;
    lemma_one_row_per_value(after, i);
}

/// In a well-formed table exactly one row holds the value of the row at `i`.
pub proof fn lemma_one_row_per_value(rows: Seq<Row>, i: int)
    requires
        values_unique(rows),
        0 <= i < rows.len(),
    ensures
        rows.filter(|r: Row| r.value == rows[i].value).len() == 1,
    decreases rows.len(),
{
    let value = rows[i].value;
    let pred = |r: Row| r.value == value;
    let last = rows.len() - 1;
    let front = rows.drop_last();
    reveal(Seq::filter);
    if i == last {
        lemma_no_row_with_value(front, value);
        assert(front.filter(pred).len() == 0);
    } else {
        assert(rows[i].value != rows[last].value);
        assert(front[i] == rows[i]);
        lemma_one_row_per_value(front, i);
    }
}

/// Filtering for a value that no row holds leaves nothing.
pub proof fn lemma_no_row_with_value(rows: Seq<Row>, value: Seq<char>)
    requires
        !has_value(rows, value),
    ensures
        rows.filter(|r: Row| r.value == value).len() == 0,
    decreases rows.len(),
{
    reveal(Seq::filter);
    if rows.len() > 0 {
        let front = rows.drop_last();
        assert(rows.last().value != value) by {
            assert(rows[rows.len() - 1].value == rows.last().value);
        }
        assert(!has_value(front, value)) by {
            if has_value(front, value) {
                let i = choose|i: int| 0 <= i < front.len() && front[i].value == value;
                assert(rows[i].value == value);
            }
        }
        lemma_no_row_with_value(front, value);
    }
}

/// One stored row: an id and the value it stands for.
pub struct LookupRow {
    id: i64,
    value: String,
}

/// A lookup table held in memory, its rows in the order they were stored.
pub struct LookupTable {
    rows: Vec<LookupRow>,
}

impl View for LookupTable {
    type V = Seq<Row>;

    closed spec fn view(&self) -> Seq<Row> {
        Seq::new(
            self.rows@.len(),
            |i: int| Row { id: self.rows@[i].id as int, value: self.rows@[i].value@ },
        )
    }
}

impl LookupTable {
    /// The table's invariant.
    pub open spec fn wf(&self) -> bool {
        table_wf(self@)
    }

    /// A table that has not been created yet: it holds no row at all.
    pub fn new() -> (table: LookupTable)
        ensures
            table@ == Seq::<Row>::empty(),
            table.wf(),
    {
        let table = LookupTable { rows: Vec::new() };
        assert(table@ =~= Seq::<Row>::empty());
        table
    }

    /// Whether the table has been created.
    pub fn is_created(&self) -> (created: bool)
        ensures
            created == (self@.len() > 0),
    {
        self.rows.len() > 0
    }

    /// Creates the table if it is missing, with the sentinel row in it. A
    /// table that exists is left as it is.
    pub fn create(&mut self)
        requires
            old(self).wf(),
        ensures
            final(self).wf(),
            final(self)@ == if old(self)@.len() > 0 {
                old(self)@
            } else {
                seq![sentinel()]
            },
    {
        if self.rows.len() == 0 {
            self.rows.push(LookupRow { id: 0, value: String::new() });
            assert(self@ =~= seq![sentinel()]);
        }
    }

    /// The id of the row that holds `value`.
    pub fn find(&self, value: &String) -> (found: Option<i64>)
        requires
            self.wf(),
        ensures
            match found {
                Some(id) => id_of(self@, value@) == Some(id as int),
                None => id_of(self@, value@) is None,
            },
    {
        let mut i: usize = 0;
        while i < self.rows.len()
            invariant
                self.wf(),
                i <= self.rows@.len(),
                forall|j: int| 0 <= j < i ==> self@[j].value != value@,
            decreases self.rows@.len() - i,
        {
            if self.rows[i].value == *value {
                proof {
                    assert(self@[i as int].value == value@);
                    lemma_row_found(self@, i as int);
                }
                return Some(self.rows[i].id);
            }
            i = i + 1;
        }
        None
    }

    /// The value of the row with the id `id`.
    pub fn value(&self, id: i64) -> (found: Option<&String>)
        requires
            self.wf(),
        ensures
            match found {
                Some(v) => value_of(self@, id as int) == Some(v@),
                None => value_of(self@, id as int) is None,
            },
    {
        let mut i: usize = 0;
        while i < self.rows.len()
            invariant
                self.wf(),
                i <= self.rows@.len(),
                forall|j: int| 0 <= j < i ==> self@[j].id != id,
            decreases self.rows@.len() - i,
        {
            if self.rows[i].id == id {
                proof {
                    assert(self@[i as int].id == id);
                    lemma_row_found(self@, i as int);
                }
                return Some(&self.rows[i].value);
            }
            i = i + 1;
        }
        None
    }

    /// Whether `get_or_store` would succeed for `value`.
    pub fn can_store(&self, value: &String) -> (possible: bool)
        requires
            self.wf(),
        ensures
            possible == can_store(self@, value@),
    {
        let n: usize = self.rows.len();
        if n == 0 {
            return false;
        }
        assert(self@.last().id == self.rows@[n - 1].id);
        match self.find(value) {
            Some(_) => true,
            None => self.rows[n - 1].id < i64::MAX,
        }
    }

    /// Returns the id of the row that holds `value`, storing the value under
    /// the next id first where no row holds it yet. Fails, and changes
    /// nothing, where the table is missing or no id is left.
    pub fn get_or_store(&mut self, value: String) -> (id: Result<i64, ServiceError>)
        requires
            old(self).wf(),
        ensures
            final(self).wf(),
            match id {
                Ok(id) => {
                    &&& can_store(old(self)@, value@)
                    &&& final(self)@ == stored(old(self)@, value@)
                    &&& id_of(final(self)@, value@) == Some(id as int)
                },
                Err(e) => {
                    &&& !can_store(old(self)@, value@)
                    &&& final(self)@ == old(self)@
                    &&& e == ServiceError::Storage
                },
            },
    {
        let n: usize = self.rows.len();
        if n == 0 {
            return Err(ServiceError::Storage);
        }
        if let Some(id) = self.find(&value) {
            return Ok(id);
        }
        let last: i64 = self.rows[n - 1].id;
        assert(self@.last().id == last);
        if last == i64::MAX {
            return Err(ServiceError::Storage);
        }
        assert(self@[0] == sentinel());
        assert(last >= 0) by {
            if n > 1 {
                assert(self@[0].id < self@[n - 1].id);
            }
        }
        let id: i64 = last + 1;
        let ghost before = self@;
        let ghost text = value@;
        self.rows.push(LookupRow { id, value });
        proof {
            assert(self@ =~= stored(before, text));
            lemma_stored_wf(before, text);
            assert(self@[n as int].value == text);
            lemma_row_found(self@, n as int);
        }
        Ok(id)
    }

    /// The number of rows.
    pub fn len(&self) -> (n: usize)
        ensures
            n == self@.len(),
    {
        self.rows.len()
    }

    /// Looks `value` up, as one statement of a transaction.
    pub fn select(&self, value: &String) -> (reply: Reply)
        requires
            self.wf(),
        ensures
            reply == select_reply(self@, value@),
    {
        if self.rows.len() == 0 {
            return Reply::Failed;
        }
        match self.find(value) {
            Some(id) => Reply::Found(id),
            None => Reply::Missing,
        }
    }

    /// Writes `value` to a new row, as one statement of a transaction. A
    /// value that a row holds already is refused, as every value is where
    /// the table is missing or no id is left.
    pub fn insert(&mut self, value: String) -> (reply: Reply)
        requires
            old(self).wf(),
        ensures
            final(self).wf(),
            reply == insert_reply(old(self)@, value@),
            final(self)@ == after_insert(old(self)@, value@),
    {
        if !self.can_store(&value) {
            return Reply::Failed;
        }
        if self.find(&value).is_some() {
            return Reply::Failed;
        }
        match self.get_or_store(value) {
            Ok(id) => Reply::Stored(id),
            Err(_) => Reply::Failed,
        }
    }

    /// Drops every row from position `len` on: what a transaction wrote is
    /// undone by going back to the length from before it.
    pub fn truncate(&mut self, len: usize)
        requires
            old(self).wf(),
        ensures
            final(self).wf(),
            final(self)@ == if len <= old(self)@.len() {
                old(self)@.take(len as int)
            } else {
                old(self)@
            },
    {
        if len <= self.rows.len() {
            proof {
                lemma_prefix_wf(self@, len as int);
            }
            self.rows.truncate(len);
            assert(self@ =~= old(self)@.take(len as int));
        }
    }
}

} // verus!
