//! The order of a listing: the entry with the highest identifier comes first,
//! which is the entry inserted last.
//!
//! The store is asked for that order, and in that case every arriving row
//! simply goes to the end. The listing does not depend on it: whatever order
//! the rows arrive in, each is put where it belongs.

use crate::model::{log_views, Log, LogView};
use vstd::prelude::*;
use vstd::seq_lib::*;

verus! {

/// True when no entry of `rows` comes before one with a higher identifier.
pub open spec fn is_newest_first(rows: Seq<LogView>) -> bool {
    forall|i: int, j: int|
        0 <= i < j < rows.len() ==> (#[trigger] rows[i]).rank() >= (#[trigger] rows[j]).rank()
}

/// Where `row` goes in `rows`: behind the last entry whose identifier is not
/// lower than its own, or in front if there is no such entry.
pub open spec fn slot(rows: Seq<LogView>, row: LogView) -> nat
    decreases rows.len(),
{
    if rows.len() == 0 || rows.last().rank() >= row.rank() {
        rows.len()
    } else {
        slot(rows.drop_last(), row)
    }
}

/// `rows` with `row` put in its slot.
pub open spec fn place(rows: Seq<LogView>, row: LogView) -> Seq<LogView> {
    rows.insert(slot(rows, row) as int, row)
}

/// The listing that results when `rows` arrive one after the other.
pub open spec fn newest_first(rows: Seq<LogView>) -> Seq<LogView>
    decreases rows.len(),
{
    if rows.len() == 0 {
        rows
    } else {
        place(newest_first(rows.drop_last()), rows.last())
    }
}

/// The slot of a row lies within the listing, every entry from the slot on
/// has a lower identifier than the row, and the entry just before the slot
/// has not.
pub proof fn lemma_slot(rows: Seq<LogView>, row: LogView)
    ensures
        slot(rows, row) <= rows.len(),
        forall|j: int| slot(rows, row) <= j < rows.len() ==> (#[trigger] rows[j]).rank() < row.rank(),
        slot(rows, row) > 0 ==> rows[slot(rows, row) - 1].rank() >= row.rank(),
    decreases rows.len(),
{
    if !(rows.len() == 0 || rows.last().rank() >= row.rank()) {
        let front = rows.drop_last();
        lemma_slot(front, row);
        assert forall|j: int| slot(rows, row) <= j < rows.len() implies (#[trigger] rows[j]).rank()
            < row.rank() by {
            if j < front.len() {
                assert(rows[j] == front[j]);
            }
        }
        if slot(rows, row) > 0 {
            assert(rows[slot(rows, row) - 1] == front[slot(front, row) - 1]);
        }
    }
}

/// Putting a row into a listing that is newest first leaves it newest first.
pub proof fn lemma_place_keeps_order(rows: Seq<LogView>, row: LogView)
    requires
        is_newest_first(rows),
    ensures
        is_newest_first(place(rows, row)),
{
    lemma_slot(rows, row);
    let p = slot(rows, row) as int;
    let out = place(rows, row);
    assert forall|i: int, j: int| 0 <= i < j < out.len() implies (#[trigger] out[i]).rank() >= (
    #[trigger] out[j]).rank() by {
        if j < p {
            assert(out[i] == rows[i] && out[j] == rows[j]);
        } else if j == p {
            assert(out[i] == rows[i]);
            if i < p - 1 {
                assert(rows[i].rank() >= rows[p - 1].rank());
            }
        } else if i < p {
            assert(out[i] == rows[i] && out[j] == rows[j - 1]);
        } else if i == p {
            assert(out[j] == rows[j - 1]);
        } else {
            assert(out[i] == rows[i - 1] && out[j] == rows[j - 1]);
        }
    }
}

/// Putting a row into a listing adds that row and nothing else, and drops
/// nothing.
pub proof fn lemma_place_adds_row(rows: Seq<LogView>, row: LogView)
    ensures
        place(rows, row).len() == rows.len() + 1,
        place(rows, row).to_multiset() == rows.to_multiset().insert(row),
{
    lemma_slot(rows, row);
    to_multiset_insert(rows, slot(rows, row) as int, row);
}

/// A row whose identifier is not higher than that of the last entry goes to
/// the end: rows that arrive newest first stay as they are.
pub proof fn lemma_place_at_end(rows: Seq<LogView>, row: LogView)
    requires
        rows.len() == 0 || rows.last().rank() >= row.rank(),
    ensures
        place(rows, row) == rows.push(row),
{
    assert(rows.insert(rows.len() as int, row) =~= rows.push(row));
}

/// In whatever order the rows arrive, the listing is newest first.
pub proof fn lemma_newest_first_is_ordered(rows: Seq<LogView>)
    ensures
        is_newest_first(newest_first(rows)),
    decreases rows.len(),
{
    if rows.len() > 0 {
        lemma_newest_first_is_ordered(rows.drop_last());
        lemma_place_keeps_order(newest_first(rows.drop_last()), rows.last());
    }
}

/// The listing holds exactly the rows that arrived, each as often as it
/// arrived.
pub proof fn lemma_newest_first_keeps_rows(rows: Seq<LogView>)
    ensures
        newest_first(rows).len() == rows.len(),
        newest_first(rows).to_multiset() == rows.to_multiset(),
    decreases rows.len(),
{
    if rows.len() == 0 {
    } else {
        let front = rows.drop_last();
        lemma_newest_first_keeps_rows(front);
        lemma_place_adds_row(newest_first(front), rows.last());
        to_multiset_build(front, rows.last());
        assert(front.push(rows.last()) =~= rows);
    }
}

/// Rows that arrive newest first are listed in the order of their arrival.
pub proof fn lemma_newest_first_of_ordered(rows: Seq<LogView>)
    requires
        is_newest_first(rows),
    ensures
        newest_first(rows) == rows,
    decreases rows.len(),
{
    if rows.len() > 0 {
        let front = rows.drop_last();
        assert(is_newest_first(front)) by {
            assert forall|i: int, j: int| 0 <= i < j < front.len() implies (#[trigger] front[i]).rank()
                >= (#[trigger] front[j]).rank() by {
                assert(front[i] == rows[i] && front[j] == rows[j]);
            }
        }
        lemma_newest_first_of_ordered(front);
        if front.len() > 0 {
            assert(front.last() == rows[rows.len() - 2]);
            assert(rows.last() == rows[rows.len() - 1]);
        }
        lemma_place_at_end(front, rows.last());
        assert(front.push(rows.last()) =~= rows);
    }
}

/// The slot of `row` in `rows`.
fn slot_of(rows: &Vec<Log>, row: &Log) -> (pos: usize)
    ensures
        pos == slot(log_views(rows@), row@),
        pos <= rows.len(),
{
    let ghost views = log_views(rows@);
    let key: u128 = row.id.key();
    let mut pos: usize = rows.len();
    assert(views.take(pos as int) =~= views);
    while pos > 0
        invariant
            pos <= rows.len(),
            views == log_views(rows@),
            key == row@.rank(),
            slot(views, row@) == slot(views.take(pos as int), row@),
        decreases pos,
    {
        let ghost head = views.take(pos as int);
        assert(head.last() == rows@[pos - 1]@);
        if rows[pos - 1].id.key() >= key {
            return pos;
        }
        assert(head.drop_last() =~= views.take(pos - 1));
        pos -= 1;
    }
    pos
}

/// Puts `row` into the listing `rows`, in its slot.
pub fn insert_row(rows: &mut Vec<Log>, row: Log)
    ensures
        log_views(final(rows)@) == place(log_views(old(rows)@), row@),
        is_newest_first(log_views(old(rows)@)) ==> is_newest_first(log_views(final(rows)@)),
{
    let pos = slot_of(rows, &row);
    proof {
        if is_newest_first(log_views(rows@)) {
            lemma_place_keeps_order(log_views(rows@), row@);
        }
        assert(log_views(rows@.insert(pos as int, row)) =~= log_views(rows@).insert(
            pos as int,
            row@,
        ));
    }
    rows.insert(pos, row);
}

} // verus!
