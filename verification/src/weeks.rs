//! Cutting a run of cells into weeks.
//!
//! A week is a row of seven cells. A run of cells is cut from the front, so
//! that every row is full but possibly the last, which is never empty.

use vstd::prelude::*;

verus! {

/// The number of cells in a full row.
pub const DAYS_PER_WEEK: usize = 7;

/// The number of rows that `cells` cells take.
pub open spec fn week_count(cells: nat) -> nat {
    ((cells + 6) / 7) as nat
}

/// Where row `i` of a run of `cells` cells ends.
pub open spec fn week_end(cells: nat, i: int) -> int {
    if 7 * i + 7 <= cells {
        7 * i + 7
    } else {
        cells as int
    }
}

/// The rows of `cells`: row `i` holds the cells from `7 * i` on, seven of
/// them or as many as are left.
pub open spec fn week_rows<T>(cells: Seq<T>) -> Seq<Seq<T>> {
    Seq::new(
        week_count(cells.len()),
        |i: int| cells.subrange(7 * i, week_end(cells.len(), i)),
    )
}

/// The rows held in a vector of vectors.
pub open spec fn rows_of<T>(rows: Seq<Vec<T>>) -> Seq<Seq<T>> {
    Seq::new(rows.len(), |i: int| rows[i]@)
}

/// No row is empty or longer than a week, and every row but the last is a
/// full week.
pub proof fn lemma_week_rows_lengths<T>(cells: Seq<T>)
    ensures
        week_rows(cells).len() == week_count(cells.len()),
        forall|i: int|
            0 <= i < week_rows(cells).len() ==> 1 <= (#[trigger] week_rows(cells)[i]).len() <= 7,
        forall|i: int|
            0 <= i < week_rows(cells).len() - 1 ==> (#[trigger] week_rows(cells)[i]).len() == 7,
{
}

/// Cell `k` of the run is cell `k % 7` of row `k / 7`.
pub proof fn lemma_week_rows_cell<T>(cells: Seq<T>, k: int)
    requires
        0 <= k < cells.len(),
    ensures
        k / 7 < week_rows(cells).len(),
        k % 7 < week_rows(cells)[k / 7].len(),
        week_rows(cells)[k / 7][k % 7] == cells[k],
{
}

/// The rows, put one after another, are the run that was cut.
pub proof fn lemma_week_rows_flatten<T>(cells: Seq<T>)
    ensures
        week_rows(cells).flatten() == cells,
    decreases cells.len(),
{
    let rows = week_rows(cells);
    if cells.len() == 0 {
    } else if cells.len() <= 7 {
        assert(rows.drop_first().flatten() =~= Seq::<T>::empty());
    } else {
        let rest = cells.skip(7);
        lemma_week_rows_flatten(rest);
        assert(rows.drop_first() =~~= week_rows(rest));
    }
}

/// Cuts `cells` into weeks.
pub fn into_weeks<T>(cells: Vec<T>) -> (rows: Vec<Vec<T>>)
    ensures
        rows_of(rows@) == week_rows(cells@),
{
    let ghost all = cells@;
    let mut rows: Vec<Vec<T>> = Vec::new();
    let mut row: Vec<T> = Vec::new();
    for cell in it: cells
        invariant
            it.seq() == all,
            rows.len() == it.index() / 7,
            row.len() == it.index() % 7,
            forall|i: int|
                0 <= i < rows.len() ==> (#[trigger] rows[i])@ == all.subrange(7 * i, 7 * i + 7),
            row@ == all.subrange(7 * (it.index() / 7), it.index() as int),
    {
        row.push(cell);
        if row.len() == DAYS_PER_WEEK {
            rows.push(row);
            row = Vec::new();
        }
    }
    if row.len() > 0 {
        rows.push(row);
    }
    rows
}

} // verus!
