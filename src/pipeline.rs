//! Projection of a report onto its five columns and cleaning of the `Name` column.
use vstd::prelude::*;

use crate::brackets::{strip_brackets, strip_brackets_spec};
use crate::error::CsvError;
use crate::table::{texts, Table, TableModel};

verus! {

/// The identifier column, whose values lose their brackets.
pub const COL_NAME: &'static str = "Name";

/// Total number of prints.
pub const COL_TOTAL_PRINTS: &'static str = "Total Prints";

/// Black and white prints made on printers.
pub const COL_BW_PRINTER: &'static str = "Black & WhiteTotal(Printer)";

/// Black and white prints made on copiers and document servers.
pub const COL_BW_COPIER: &'static str = "Black & WhiteTotal(Copier/Document Server)";

/// Large black and white prints made on copiers and document servers.
pub const COL_BW_LARGE: &'static str = "Black & White(Large size)(Copier/Document Server)";

/// The columns of a processed report, in their output order.
pub open spec fn column_set() -> Seq<Seq<char>> {
    seq![COL_NAME@, COL_TOTAL_PRINTS@, COL_BW_PRINTER@, COL_BW_COPIER@, COL_BW_LARGE@]
}

/// Index of the first column called `name`, if there is one.
pub open spec fn position(header: Seq<Seq<char>>, name: Seq<char>) -> int {
    match header.index_of_first(name) {
        Some(i) => i,
        None => -1,
    }
}

/// Every name in `names` is a column of `header`.
pub open spec fn all_present(header: Seq<Seq<char>>, names: Seq<Seq<char>>) -> bool {
    forall|k: int| 0 <= k < names.len() ==> header.contains(#[trigger] names[k])
}

/// `names[k]` is the first of `names` that `header` lacks.
pub open spec fn first_missing(header: Seq<Seq<char>>, names: Seq<Seq<char>>, k: int) -> bool {
    &&& 0 <= k < names.len()
    &&& !header.contains(names[k])
    &&& forall|j: int| 0 <= j < k ==> header.contains(#[trigger] names[j])
}

/// The cells of `row` under the columns `names`, in the order of `names`.
pub open spec fn project_row(
    row: Seq<Seq<char>>,
    header: Seq<Seq<char>>,
    names: Seq<Seq<char>>,
) -> Seq<Seq<char>> {
    Seq::new(names.len(), |k: int| row[position(header, names[k])])
}

/// The table restricted to the columns `names`, in that order, rows kept in order.
pub open spec fn projection(t: TableModel, names: Seq<Seq<char>>) -> TableModel {
    TableModel {
        header: names,
        rows: t.rows.map_values(|row: Seq<Seq<char>>| project_row(row, t.header, names)),
    }
}

/// The table with the brackets removed from every cell of column `c`.
pub open spec fn strip_column(t: TableModel, c: int) -> TableModel {
    TableModel {
        header: t.header,
        rows: t.rows.map_values(
            |row: Seq<Seq<char>>| row.update(c, strip_brackets_spec(row[c])),
        ),
    }
}

/// The processed report: the five columns in order, with a bracket-free `Name`.
pub open spec fn transformed(t: TableModel) -> TableModel {
    strip_column(projection(t, column_set()), 0)
}

/// The column names of a processed report, in order.
pub fn column_set_names() -> (r: Vec<String>)
    ensures
        texts(r@) == column_set(),
{
    let r = vec![
        String::from_str(COL_NAME),
        String::from_str(COL_TOTAL_PRINTS),
        String::from_str(COL_BW_PRINTER),
        String::from_str(COL_BW_COPIER),
        String::from_str(COL_BW_LARGE),
    ];
    assert(texts(r@) =~= column_set());
    r
}

/// Index of the first column of `header` called `name`, or `None` when there is none.
pub fn find_column(header: &Vec<String>, name: &String) -> (r: Option<usize>)
    ensures
        r matches Some(i) ==> texts(header@).index_of_first(name@) == Some(i as int),
        r is None ==> texts(header@).index_of_first(name@) is None,
{
    let ghost h = texts(header@);
    let mut i: usize = 0;
    while i < header.len()
        invariant
            h == texts(header@),
            i <= header@.len(),
            forall|j: int| 0 <= j < i ==> h[j] != name@,
        decreases header@.len() - i,
    {
        assert(h[i as int] == header@[i as int]@);
        if header[i] == *name {
            proof {
                h.index_of_first_ensures(name@);
                match h.index_of_first(name@) {
                    Some(k) => {
                        if k < i {
                            assert(h[k] != name@);
                        }
                        if k > i {
                            assert(h[i as int] == name@);
                        }
                    },
                    None => {
                        assert(h[i as int] == name@);
                    },
                }
            }
            return Some(i);
        }
        i = i + 1;
    }
    proof {
        h.index_of_first_ensures(name@);
        if h.contains(name@) {
            let k = choose|k: int| 0 <= k < h.len() && h[k] == name@;
            assert(h[k] != name@);
        }
    }
    None
}

} // verus!

verus! {

/// The table restricted to the columns `names`, in that order; fails with
/// `Schema` carrying the first of `names` that the table lacks.
pub fn project(t: &Table, names: &Vec<String>) -> (r: Result<Table, CsvError>)
    requires
        t.wf(),
    ensures
        r is Ok <==> all_present(t@.header, texts(names@)),
        r matches Ok(p) ==> p@ == projection(t@, texts(names@)) && p.wf(),
        r matches Err(e) ==> exists|k: int|
            first_missing(t@.header, texts(names@), k) && e == CsvError::Schema(names@[k]),
{
    let header = t.header();
    let rows = t.rows();
    let ghost h = t@.header;
    let ghost ns = texts(names@);
    let mut idx: Vec<usize> = Vec::new();
    let mut k: usize = 0;
    while k < names.len()
        invariant
            h == texts(header@),
            h == t@.header,
            ns == texts(names@),
            k <= names@.len(),
            idx@.len() == k,
            forall|j: int|
                0 <= j < k ==> #[trigger] idx@[j] as int == position(h, ns[j]) && idx@[j]
                    < h.len() && h.contains(ns[j]),
        decreases names@.len() - k,
    {
        assert(ns[k as int] == names@[k as int]@);
        match find_column(header, &names[k]) {
            Some(i) => {
                proof {
                    h.index_of_first_ensures(ns[k as int]);
                }
                idx.push(i);
            },
            None => {
                proof {
                    h.index_of_first_ensures(ns[k as int]);
                    assert forall|j: int| 0 <= j < k implies h.contains(#[trigger] ns[j]) by {
                        assert(idx@[j] as int == position(h, ns[j]));
                    }
                    assert(first_missing(h, ns, k as int));
                    assert(!all_present(h, ns));
                }
                let missing = names[k].clone();
                assert(first_missing(h, ns, k as int) && missing == names@[k as int]);
                return Err(CsvError::Schema(missing));
            },
        }
        k = k + 1;
    }
    assert(all_present(h, ns)) by {
        assert forall|j: int| 0 <= j < ns.len() implies h.contains(#[trigger] ns[j]) by {
            assert(idx@[j] as int == position(h, ns[j]));
        }
    }
    let mut out_rows: Vec<Vec<String>> = Vec::new();
    let ghost in_rows = t@.rows;
    let mut r: usize = 0;
    while r < rows.len()
        invariant
            h == texts(header@),
            ns == texts(names@),
            idx@.len() == names@.len(),
            forall|j: int|
                0 <= j < names@.len() ==> #[trigger] idx@[j] as int == position(h, ns[j])
                    && idx@[j] < h.len(),
            rows@.map_values(|row: Vec<String>| texts(row@)) == in_rows,
            t@.wf(),
            all_present(h, ns),
            in_rows == t@.rows,
            h == t@.header,
            r <= rows@.len(),
            out_rows@.len() == r,
            forall|q: int|
                0 <= q < r ==> texts(#[trigger] out_rows@[q]@) == project_row(in_rows[q], h, ns),
        decreases rows@.len() - r,
    {
        let row = &rows[r];
        assert(texts(row@) == in_rows[r as int]);
        assert(in_rows[r as int].len() == h.len());
        let mut cells: Vec<String> = Vec::new();
        let mut k: usize = 0;
        while k < idx.len()
            invariant
                idx@.len() == names@.len(),
                ns.len() == names@.len(),
                forall|j: int|
                    0 <= j < names@.len() ==> #[trigger] idx@[j] as int == position(h, ns[j])
                        && idx@[j] < h.len(),
                r < in_rows.len(),
                texts(row@) == in_rows[r as int],
                row@.len() == h.len(),
                k <= idx@.len(),
                texts(cells@) =~= project_row(in_rows[r as int], h, ns).subrange(0, k as int),
            decreases idx@.len() - k,
        {
            let i = idx[k];
            assert(idx@[k as int] as int == position(h, ns[k as int]));
            assert(row@[i as int]@ == texts(row@)[i as int]);
            let ghost before = cells@;
            let cell = row[i].clone();
            assert(cell@ == project_row(in_rows[r as int], h, ns)[k as int]);
            cells.push(cell);
            assert(cells@ == before.push(cell));
            let ghost want = project_row(in_rows[r as int], h, ns);
            assert(texts(before).len() == before.len());
            assert(texts(cells@).len() == cells@.len());
            assert(cells@.len() == k + 1);
            assert forall|j: int| 0 <= j <= k implies texts(cells@)[j] == want[j] by {
                if j < k {
                    assert(texts(before)[j] == want.subrange(0, k as int)[j]);
                }
            }
            k = k + 1;
            assert(texts(cells@) =~= project_row(in_rows[r as int], h, ns).subrange(0, k as int));
        }
        assert(texts(cells@) =~= project_row(in_rows[r as int], h, ns));
        out_rows.push(cells);
        r = r + 1;
    }
    let columns = crate::table::copy_strings(names);
    proof {
        let m = crate::table::model_of(columns@, out_rows@);
        let want = projection(t@, ns);
        assert(m.rows =~= want.rows);
        assert(m.header =~= want.header);
        assert(m.wf());
    }
    Ok(Table::from_parts(columns, out_rows))
}

} // verus!

verus! {

/// The table with the brackets removed from every cell of column `c`; all
/// other cells, the header and the row order are kept.
pub fn strip_column_brackets(t: &Table, c: usize) -> (r: Table)
    requires
        t.wf(),
        c < t@.header.len(),
    ensures
        r@ == strip_column(t@, c as int),
        r.wf(),
{
    let header = t.header();
    let rows = t.rows();
    let ghost in_rows = t@.rows;
    let mut out_rows: Vec<Vec<String>> = Vec::new();
    let mut r: usize = 0;
    while r < rows.len()
        invariant
            rows@.map_values(|row: Vec<String>| texts(row@)) == in_rows,
            in_rows == t@.rows,
            t@.wf(),
            c < t@.header.len(),
            r <= rows@.len(),
            out_rows@.len() == r,
            forall|q: int|
                0 <= q < r ==> texts(#[trigger] out_rows@[q]@) == in_rows[q].update(
                    c as int,
                    strip_brackets_spec(in_rows[q][c as int]),
                ),
        decreases rows@.len() - r,
    {
        assert(texts(rows@[r as int]@) == in_rows[r as int]);
        assert(in_rows[r as int].len() == t@.header.len());
        let mut row = crate::table::copy_strings(&rows[r]);
        let cleaned = strip_brackets(row[c].as_str());
        let ghost before = row@;
        row[c] = cleaned;
        proof {
            assert(before[c as int]@ == in_rows[r as int][c as int]);
            assert(texts(row@) =~= in_rows[r as int].update(
                c as int,
                strip_brackets_spec(in_rows[r as int][c as int]),
            ));
        }
        out_rows.push(row);
        r = r + 1;
    }
    let columns = crate::table::copy_strings(header);
    proof {
        let m = crate::table::model_of(columns@, out_rows@);
        let want = strip_column(t@, c as int);
        assert(m.rows =~= want.rows);
        assert(m.header =~= want.header);
        assert(m.wf());
    }
    Table::from_parts(columns, out_rows)
}

/// Processes a report: keeps the five report columns in their fixed order and
/// removes the brackets from the `Name` column. Fails with `Schema` carrying
/// the first report column, in that order, that the input lacks.
pub fn transform(t: &Table) -> (r: Result<Table, CsvError>)
    requires
        t.wf(),
    ensures
        r is Ok <==> all_present(t@.header, column_set()),
        r matches Ok(out) ==> out@ == transformed(t@) && out.wf(),
        r matches Err(e) ==> exists|k: int|
            first_missing(t@.header, column_set(), k) && (e matches CsvError::Schema(n)
                && n@ == column_set()[k]),
{
    let names = column_set_names();
    match project(t, &names) {
        Ok(p) => {
            assert(p@.header.len() == 5);
            Ok(strip_column_brackets(&p, 0))
        },
        Err(e) => {
            proof {
                let k = choose|k: int|
                    first_missing(t@.header, texts(names@), k) && e == CsvError::Schema(names@[k]);
                assert(first_missing(t@.header, column_set(), k));
            }
            Err(e)
        },
    }
}

} // verus!
