//! What writes do to the record table, and the laws that the rules of
//! [`crate::records`] give it.
//!
//! An insert appends a row whose id is one more than the largest id in the
//! table (at least 1); an update rewrites the name of the rows with the
//! given id. Concurrent writes are serialised by the store's lock, so a
//! batch of writes acts as the same writes made one after another.
use vstd::prelude::*;
use crate::records::{count_named, last_id_named, read_result, set_action, Row, SetAction};

verus! {

/// The id that storage gives the next inserted row.
pub open spec fn next_id(rows: Seq<Row>) -> int
    decreases rows.len(),
{
    if rows.len() == 0 {
        1
    } else {
        let m = next_id(rows.drop_last());
        if rows.last().0 >= m {
            rows.last().0 + 1
        } else {
            m
        }
    }
}

/// The table after the name of the rows with id `id` is set to `name`.
pub open spec fn updated(rows: Seq<Row>, id: int, name: Seq<char>) -> Seq<Row> {
    rows.map_values(|r: Row| if r.0 == id { (id, name) } else { r })
}

/// Whether a write of `name` on `rows` reports success.
pub open spec fn set_succeeds(rows: Seq<Row>, name: Seq<char>) -> bool {
    !(set_action(rows, name) is Refuse)
}

/// The table after a write of `name`.
pub open spec fn after_set(rows: Seq<Row>, name: Seq<char>) -> Seq<Row> {
    let c = count_named(rows, name);
    if c == 0 {
        rows.push((next_id(rows), name))
    } else if c == 1 {
        updated(rows, last_id_named(rows, name), name)
    } else {
        rows
    }
}

/// The table after writes of each of `names`, in order.
pub open spec fn after_sets(rows: Seq<Row>, names: Seq<Seq<char>>) -> Seq<Row>
    decreases names.len(),
{
    if names.len() == 0 {
        rows
    } else {
        after_sets(after_set(rows, names[0]), names.drop_first())
    }
}

/// Whether every one of the writes of `names`, in order, reports success.
pub open spec fn sets_succeed(rows: Seq<Row>, names: Seq<Seq<char>>) -> bool
    decreases names.len(),
{
    names.len() == 0 || (set_succeeds(rows, names[0]) && sets_succeed(
        after_set(rows, names[0]),
        names.drop_first(),
    ))
}

/// The table's invariant: ids are distinct, and no two rows share a name.
pub open spec fn table_wf(rows: Seq<Row>) -> bool {
    &&& forall|i: int, j: int|
        0 <= i < rows.len() && 0 <= j < rows.len() && i != j ==> rows[i].0 != rows[j].0
    &&& forall|name: Seq<char>| #[trigger] count_named(rows, name) <= 1
}

proof fn lemma_count_push(rows: Seq<Row>, r: Row, name: Seq<char>)
    ensures
        count_named(rows.push(r), name) == count_named(rows, name) + if r.1 == name {
            1nat
        } else {
            0nat
        },
        last_id_named(rows.push(r), name) == if r.1 == name {
            r.0
        } else {
            last_id_named(rows, name)
        },
{
    assert(rows.push(r).drop_last() =~= rows);
}

proof fn lemma_next_id_fresh(rows: Seq<Row>)
    ensures
        forall|k: int| 0 <= k < rows.len() ==> rows[k].0 < next_id(rows),
    decreases rows.len(),
{
    if rows.len() > 0 {
        let init = rows.drop_last();
        lemma_next_id_fresh(init);
        assert forall|k: int| 0 <= k < rows.len() implies rows[k].0 < next_id(rows) by {
            if k < rows.len() - 1 {
                assert(rows[k] == init[k]);
            }
        }
    }
}

proof fn lemma_named_row_exists(rows: Seq<Row>, name: Seq<char>) -> (k: int)
    requires
        count_named(rows, name) > 0,
    ensures
        0 <= k < rows.len(),
        rows[k] == (last_id_named(rows, name), name),
    decreases rows.len(),
{
    if rows.last().1 == name {
        rows.len() - 1
    } else {
        let k = lemma_named_row_exists(rows.drop_last(), name);
        assert(rows[k] == rows.drop_last()[k]);
        k
    }
}

/// On a well-formed table, updating the one row that holds `name` with the
/// same name leaves the table as it was.
proof fn lemma_update_same_name(rows: Seq<Row>, name: Seq<char>)
    requires
        table_wf(rows),
        count_named(rows, name) == 1,
    ensures
        updated(rows, last_id_named(rows, name), name) == rows,
{
    let id = last_id_named(rows, name);
    let k = lemma_named_row_exists(rows, name);
    let u = updated(rows, id, name);
    assert forall|j: int| 0 <= j < rows.len() implies u[j] == rows[j] by {
        if rows[j].0 == id {
            assert(j == k);
        }
    }
    assert(u =~= rows);
}

/// A write on a well-formed table succeeds, keeps it well formed, leaves
/// exactly one row with the written name, and changes no other name's count.
pub proof fn lemma_write_keeps_unique(rows: Seq<Row>, name: Seq<char>)
    requires
        table_wf(rows),
    ensures
        set_succeeds(rows, name),
        table_wf(after_set(rows, name)),
        count_named(after_set(rows, name), name) == 1,
        forall|other: Seq<char>|
            other != name ==> #[trigger] count_named(after_set(rows, name), other)
                == count_named(rows, other),
{
    assert(count_named(rows, name) <= 1);
    if count_named(rows, name) == 0 {
        let r = (next_id(rows), name);
        let after = rows.push(r);
        lemma_next_id_fresh(rows);
        lemma_count_push(rows, r, name);
        assert forall|other: Seq<char>| #[trigger] count_named(after, other) <= 1 by {
            lemma_count_push(rows, r, other);
            assert(count_named(rows, other) <= 1);
        }
        assert forall|other: Seq<char>|
            other != name implies #[trigger] count_named(after, other) == count_named(
                rows,
                other,
            ) by {
            lemma_count_push(rows, r, other);
        }
        assert forall|i: int, j: int|
            0 <= i < after.len() && 0 <= j < after.len() && i != j implies after[i].0
            != after[j].0 by {
            if i < rows.len() {
                assert(after[i] == rows[i]);
            }
            if j < rows.len() {
                assert(after[j] == rows[j]);
            }
        }
    } else {
        lemma_update_same_name(rows, name);
    }
}

/// Under the invariant, writes of `names` one after another all succeed,
/// and afterwards each written name is held by exactly one row while every
/// other name keeps its count.
proof fn lemma_writes(rows: Seq<Row>, names: Seq<Seq<char>>)
    requires
        table_wf(rows),
    ensures
        sets_succeed(rows, names),
        table_wf(after_sets(rows, names)),
        forall|x: Seq<char>|
            #[trigger] count_named(after_sets(rows, names), x) == if names.contains(x) {
                1
            } else {
                count_named(rows, x)
            },
    decreases names.len(),
{
    if names.len() > 0 {
        let n = names[0];
        let rest = names.drop_first();
        let mid = after_set(rows, n);
        lemma_write_keeps_unique(rows, n);
        lemma_writes(mid, rest);
        assert forall|x: Seq<char>|
            #[trigger] count_named(after_sets(rows, names), x) == if names.contains(x) {
                1
            } else {
                count_named(rows, x)
            } by {
            if x == n {
                assert(names[0] == x);
                assert(count_named(mid, x) == 1);
            } else {
                if rest.contains(x) {
                    let i = choose|i: int| 0 <= i < rest.len() && rest[i] == x;
                    assert(names[i + 1] == x);
                } else if names.contains(x) {
                    let i = choose|i: int| 0 <= i < names.len() && names[i] == x;
                    assert(i != 0);
                    assert(rest[i - 1] == x);
                }
            }
        }
    }
}

/// Before any write of `n`, a read of `n` returns nothing.
pub proof fn lemma_read_before_write(names: Seq<Seq<char>>, n: Seq<char>)
    requires
        !names.contains(n),
    ensures
        read_result(after_sets(Seq::empty(), names), n) is None,
{
    let empty = Seq::<Row>::empty();
    assert(count_named(empty, n) == 0);
    assert forall|x: Seq<char>| #[trigger] count_named(empty, x) <= 1 by {}
    lemma_writes(empty, names);
}

/// After a write of `n` succeeds, a read of `n` returns `n`.
pub proof fn lemma_read_after_write(rows: Seq<Row>, n: Seq<char>)
    requires
        table_wf(rows),
    ensures
        set_succeeds(rows, n),
        read_result(after_set(rows, n), n) == Some(n),
{
    lemma_write_keeps_unique(rows, n);
}

/// Two writes of `n` in a row leave exactly one row named `n`: the second
/// creates no duplicate.
pub proof fn lemma_write_twice(rows: Seq<Row>, n: Seq<char>)
    requires
        table_wf(rows),
    ensures
        set_succeeds(after_set(rows, n), n),
        count_named(after_set(after_set(rows, n), n), n) == 1,
{
    lemma_write_keeps_unique(rows, n);
    lemma_write_keeps_unique(after_set(rows, n), n);
}

/// Writes of distinct names, in whatever order the lock lets them through,
/// all succeed; afterwards each of the names reads back as itself, and a
/// read of any other name returns what it returned before.
pub proof fn lemma_distinct_writes(rows: Seq<Row>, names: Seq<Seq<char>>)
    requires
        table_wf(rows),
        names.no_duplicates(),
    ensures
        sets_succeed(rows, names),
        forall|i: int|
            0 <= i < names.len() ==> read_result(after_sets(rows, names), #[trigger] names[i])
                == Some(names[i]),
        forall|x: Seq<char>|
            !names.contains(x) ==> #[trigger] read_result(after_sets(rows, names), x)
                == read_result(rows, x),
{
    lemma_writes(rows, names);
    assert forall|i: int| 0 <= i < names.len() implies read_result(
        after_sets(rows, names),
        #[trigger] names[i],
    ) == Some(names[i]) by {
        assert(names.contains(names[i]));
        assert(count_named(after_sets(rows, names), names[i]) == 1);
    }
    assert forall|x: Seq<char>| !names.contains(x) implies #[trigger] read_result(
        after_sets(rows, names),
        x,
    ) == read_result(rows, x) by {
        assert(count_named(after_sets(rows, names), x) == count_named(rows, x));
    }
}

/// Any number of writes of one name, in any interleaving, all succeed and
/// leave exactly one row with that name.
pub proof fn lemma_same_name_writes(rows: Seq<Row>, n: Seq<char>, m: nat)
    requires
        table_wf(rows),
        m >= 1,
    ensures
        sets_succeed(rows, Seq::new(m, |i: int| n)),
        count_named(after_sets(rows, Seq::new(m, |i: int| n)), n) == 1,
{
    let names = Seq::new(m, |i: int| n);
    lemma_writes(rows, names);
    assert(names[0] == n);
    assert(count_named(after_sets(rows, names), n) == 1);
}

} // verus!
