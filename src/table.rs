//! A table of text cells: a header of column names and rows of equal width.
use vstd::prelude::*;

use crate::error::CsvError;

verus! {

/// The text of each string, in order.
pub open spec fn texts(v: Seq<String>) -> Seq<Seq<char>> {
    v.map_values(|s: String| s@)
}

/// The mathematical content of a table.
pub struct TableModel {
    pub header: Seq<Seq<char>>,
    pub rows: Seq<Seq<Seq<char>>>,
}

impl TableModel {
    /// Every row has one cell per column.
    pub open spec fn wf(self) -> bool {
        forall|r: int| 0 <= r < self.rows.len() ==> #[trigger] self.rows[r].len() == self.header.len()
    }
}

/// The content of a table built from the given column names and rows.
pub open spec fn model_of(columns: Seq<String>, rows: Seq<Vec<String>>) -> TableModel {
    TableModel { header: texts(columns), rows: rows.map_values(|row: Vec<String>| texts(row@)) }
}

/// A table of text cells, in the order of the source.
pub struct Table {
    columns: Vec<String>,
    rows: Vec<Vec<String>>,
}

impl View for Table {
    type V = TableModel;

    closed spec fn view(&self) -> TableModel {
        model_of(self.columns@, self.rows@)
    }
}

/// A copy of the strings of `v`.
pub(crate) fn copy_strings(v: &Vec<String>) -> (r: Vec<String>)
    ensures
        r@ == v@,
{
    let mut out: Vec<String> = Vec::new();
    let mut i: usize = 0;
    while i < v.len()
        invariant
            i <= v@.len(),
            out@ == v@.subrange(0, i as int),
        decreases v@.len() - i,
    {
        out.push(v[i].clone());
        i = i + 1;
        assert(out@ =~= v@.subrange(0, i as int));
    }
    assert(v@.subrange(0, v@.len() as int) =~= v@);
    out
}

impl Table {
    /// The table is well formed: each row has one cell per column.
    pub open spec fn wf(&self) -> bool {
        self@.wf()
    }

    /// Builds a table from its column names and rows; fails with `Parse` when
    /// a row does not have one cell per column.
    pub fn new(columns: Vec<String>, rows: Vec<Vec<String>>) -> (r: Result<Table, CsvError>)
        ensures
            r is Ok <==> model_of(columns@, rows@).wf(),
            r matches Ok(t) ==> t@ == model_of(columns@, rows@) && t.wf(),
            r is Err ==> r matches Err(CsvError::Parse(_)),
    {
        let width = columns.len();
        let mut i: usize = 0;
        while i < rows.len()
            invariant
                width == columns@.len(),
                i <= rows@.len(),
                forall|j: int| 0 <= j < i ==> #[trigger] rows@[j]@.len() == width,
            decreases rows@.len() - i,
        {
            if rows[i].len() != width {
                proof {
                    let m = model_of(columns@, rows@);
                    assert(m.rows[i as int].len() != m.header.len());
                }
                return Err(CsvError::Parse(String::from_str("a row does not have one cell per column")));
            }
            i = i + 1;
        }
        let t = Table { columns, rows };
        assert(t@.wf());
        Ok(t)
    }

    /// Builds a table from parts already known to be well formed.
    pub(crate) fn from_parts(columns: Vec<String>, rows: Vec<Vec<String>>) -> (r: Table)
        requires
            model_of(columns@, rows@).wf(),
        ensures
            r@ == model_of(columns@, rows@),
            r.wf(),
    {
        Table { columns, rows }
    }

    /// The column names, in order.
    pub fn header(&self) -> (r: &Vec<String>)
        ensures
            texts(r@) == self@.header,
    {
        &self.columns
    }

    /// The rows, in order.
    pub fn rows(&self) -> (r: &Vec<Vec<String>>)
        ensures
            r@.map_values(|row: Vec<String>| texts(row@)) == self@.rows,
    {
        &self.rows
    }

    /// The number of rows.
    pub fn row_count(&self) -> (r: usize)
        ensures
            r == self@.rows.len(),
    {
        self.rows.len()
    }

    /// The number of columns.
    pub fn column_count(&self) -> (r: usize)
        ensures
            r == self@.header.len(),
    {
        self.columns.len()
    }
}

} // verus!
