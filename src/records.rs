//! The rules of the record table: one record per name.
//!
//! The table is read and written by the program around this library; the
//! functions here take the rows it read and decide what a read returns and
//! which statement a write issues. The table's model is a sequence of
//! `(id, name)` rows in storage order.
use vstd::prelude::*;

verus! {

/// One stored row: the id that storage assigned, and its name.
pub type Row = (int, Seq<char>);

/// A stored record.
#[derive(Debug)]
pub struct Thing {
    pub id: i64,
    pub name: String,
}

impl View for Thing {
    type V = Row;

    open spec fn view(&self) -> Row {
        (self.id as int, self.name@)
    }
}

impl Thing {
    /// A record with the same id and name.
    pub fn duplicate(&self) -> (r: Thing)
        ensures
            r@ == self@,
    {
        Thing { id: self.id, name: self.name.clone() }
    }
}

/// The rows of a table, as read into records.
pub open spec fn table_of(things: Seq<Thing>) -> Seq<Row> {
    things.map_values(|t: Thing| t@)
}

/// How many rows hold `name`.
pub open spec fn count_named(rows: Seq<Row>, name: Seq<char>) -> nat
    decreases rows.len(),
{
    if rows.len() == 0 {
        0
    } else {
        count_named(rows.drop_last(), name) + if rows.last().1 == name {
            1nat
        } else {
            0nat
        }
    }
}

/// The id of the last row that holds `name` (0 where none does).
pub open spec fn last_id_named(rows: Seq<Row>, name: Seq<char>) -> int
    decreases rows.len(),
{
    if rows.len() == 0 {
        0
    } else if rows.last().1 == name {
        rows.last().0
    } else {
        last_id_named(rows.drop_last(), name)
    }
}

/// What a read of `name` returns: the name, where exactly one row holds it.
pub open spec fn read_result(rows: Seq<Row>, name: Seq<char>) -> Option<Seq<char>> {
    if count_named(rows, name) == 1 {
        Some(name)
    } else {
        None
    }
}

/// What a scan of the table for one name found.
#[derive(Debug)]
pub enum Lookup {
    /// No row holds the name.
    Absent,
    /// Exactly one row holds the name.
    Found(Thing),
    /// More than one row holds the name: the table is corrupt.
    Ambiguous,
}

/// The statement that a write of one name issues.
#[derive(PartialEq, Eq, Structural, Clone, Copy, Debug)]
pub enum SetAction {
    /// Insert a new row with the name.
    Create,
    /// Rewrite the name of the row with this id.
    Update(i64),
    /// Write nothing and report a failure: the table is corrupt.
    Refuse,
}

/// The statement that a write of `name` issues on `rows`.
pub open spec fn set_action(rows: Seq<Row>, name: Seq<char>) -> SetAction {
    let c = count_named(rows, name);
    if c == 0 {
        SetAction::Create
    } else if c == 1 {
        SetAction::Update(last_id_named(rows, name) as i64)
    } else {
        SetAction::Refuse
    }
}

/// Scans `rows` for the records named `name`.
pub fn query_thing(rows: &Vec<Thing>, name: &str) -> (r: Lookup)
    ensures
        (r is Absent) == (count_named(table_of(rows@), name@) == 0),
        (r is Ambiguous) == (count_named(table_of(rows@), name@) > 1),
        r matches Lookup::Found(t) ==> count_named(table_of(rows@), name@) == 1
            && t@.1 == name@ && t@.0 == last_id_named(table_of(rows@), name@)
            && table_of(rows@).contains(t@),
{
    let ghost table = table_of(rows@);
    let target = String::from_str(name);
    let mut count: usize = 0;
    let mut found: usize = 0;
    let mut i: usize = 0;
    while i < rows.len()
        invariant
            i <= rows.len(),
            target@ == name@,
            table == table_of(rows@),
            count <= i,
            count == count_named(table.take(i as int), name@),
            count > 0 ==> found < i && table[found as int].1 == name@
                && table[found as int].0 == last_id_named(table.take(i as int), name@),
        decreases rows.len() - i,
    {
        assert(table.take(i + 1).drop_last() =~= table.take(i as int));
        if rows[i].name == target {
            count = count + 1;
            found = i;
        }
        i = i + 1;
    }
    assert(table.take(i as int) =~= table);
    if count == 0 {
        Lookup::Absent
    } else if count == 1 {
        let t = rows[found].duplicate();
        assert(table[found as int] == t@);
        Lookup::Found(t)
    } else {
        Lookup::Ambiguous
    }
}

/// What a read of `name` returns on `rows`: the stored name where exactly
/// one row holds it, and nothing where none or several do.
pub fn thing_named(rows: &Vec<Thing>, name: &str) -> (r: Option<String>)
    ensures
        match r {
            Some(s) => read_result(table_of(rows@), name@) == Some(s@),
            None => read_result(table_of(rows@), name@) is None,
        },
{
    match query_thing(rows, name) {
        Lookup::Found(t) => Some(t.name),
        _ => None,
    }
}

/// The statement that a write of `name` issues on `rows`: an insert where
/// no row holds the name, an update of the one row that holds it, and none
/// where several do.
pub fn plan_set(rows: &Vec<Thing>, name: &str) -> (r: SetAction)
    ensures
        r == set_action(table_of(rows@), name@),
{
    match query_thing(rows, name) {
        Lookup::Absent => SetAction::Create,
        Lookup::Found(t) => SetAction::Update(t.id),
        Lookup::Ambiguous => SetAction::Refuse,
    }
}

} // verus!
