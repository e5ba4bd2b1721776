//! Properties that every processed report has.
use vstd::prelude::*;

use crate::brackets::{brackets_of, is_bracket, lemma_strip_brackets_removes_all};
use crate::pipeline::{all_present, column_set, position, transformed, COL_NAME};
use crate::table::TableModel;

verus! {

/// A processed report has exactly the five report columns, in their fixed
/// order; any other column of the input is gone.
pub proof fn lemma_output_columns(t: TableModel)
    requires
        t.wf(),
        all_present(t.header, column_set()),
    ensures
        transformed(t).header == column_set(),
        transformed(t).wf(),
{
    assert forall|r: int| 0 <= r < transformed(t).rows.len() implies #[trigger] transformed(
        t,
    ).rows[r].len() == transformed(t).header.len() by {}
}

/// In every row of a processed report the `Name` value holds no `[` or `]`,
/// and it is shorter than the input's `Name` value by exactly the number of
/// bracket characters that value held.
pub proof fn lemma_names_lose_brackets(t: TableModel, r: int)
    requires
        t.wf(),
        all_present(t.header, column_set()),
        0 <= r < t.rows.len(),
    ensures
        forall|i: int|
            0 <= i < transformed(t).rows[r][0].len() ==> !is_bracket(
                #[trigger] transformed(t).rows[r][0][i],
            ),
        transformed(t).rows[r][0].len() == t.rows[r][position(t.header, COL_NAME@)].len()
            - brackets_of(t.rows[r][position(t.header, COL_NAME@)]).len(),
{
    lemma_strip_brackets_removes_all(t.rows[r][position(t.header, COL_NAME@)]);
}

/// A processed report has as many rows as its input.
pub proof fn lemma_row_count_kept(t: TableModel)
    requires
        t.wf(),
        all_present(t.header, column_set()),
    ensures
        transformed(t).rows.len() == t.rows.len(),
{
}

/// Every column of a processed report but `Name` holds, in each row, the very
/// value of that column in the same row of the input.
pub proof fn lemma_other_columns_kept(t: TableModel, r: int, k: int)
    requires
        t.wf(),
        all_present(t.header, column_set()),
        0 <= r < t.rows.len(),
        1 <= k < column_set().len(),
    ensures
        transformed(t).rows[r][k] == t.rows[r][position(t.header, column_set()[k])],
{
}

} // verus!
