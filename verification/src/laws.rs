//! The general laws of the row parser, stated over the same spec functions
//! its contracts use and proved once for every schema, row and cell.

use crate::row::{
    cell_at, lemma_row_spec_err_from, resolve_spec, row_spec, row_spec_from, type_label,
    CellFault, ErrorModel,
};
use crate::schema::ColumnModel;
use crate::values::{parse_cell_spec, ValueModel};
use vstd::prelude::*;

verus! {

proof fn lemma_row_from_ok_shape(
    schema: Seq<ColumnModel>,
    cells: Seq<Option<Seq<char>>>,
    row: int,
    k: int,
)
    requires
        0 <= k <= schema.len(),
        forall|i: int| k <= i < schema.len() ==> resolve_spec(schema[i], cell_at(cells, i)) is Ok,
    ensures
        row_spec_from(schema, cells, row, k) matches Ok(vals) && vals.len() == schema.len() - k
            && (forall|i: int|
            k <= i < schema.len() ==> resolve_spec(schema[i], cell_at(cells, i))
                == Ok::<ValueModel, CellFault>(vals[i - k])),
    decreases schema.len() - k,
{
    if k < schema.len() {
        lemma_row_from_ok_shape(schema, cells, row, k + 1);
    }
}

/// Where every present value matches its column's declared type and no
/// required column is absent, parsing succeeds, and the record holds exactly
/// one value per column, each the resolution of its own column.
pub proof fn lemma_valid_row_parses(
    schema: Seq<ColumnModel>,
    cells: Seq<Option<Seq<char>>>,
    row: int,
)
    requires
        forall|i: int| 0 <= i < schema.len() ==> resolve_spec(schema[i], cell_at(cells, i)) is Ok,
    ensures
        row_spec(schema, cells, row) matches Ok(vals) && vals.len() == schema.len() && (forall|
            i: int,
        |
            0 <= i < schema.len() ==> resolve_spec(schema[i], cell_at(cells, i))
                == Ok::<ValueModel, CellFault>(vals[i])),
{
    lemma_row_from_ok_shape(schema, cells, row, 0);
}

/// Every column beyond a short row's length is treated as absent: a required
/// column there fails the row with `MissingColumn` at its own index, and a
/// non-required one resolves to `Null`.
pub proof fn lemma_short_row(
    schema: Seq<ColumnModel>,
    cells: Seq<Option<Seq<char>>>,
    row: int,
    j: int,
)
    requires
        cells.len() <= j < schema.len(),
    ensures
        cell_at(cells, j) is None,
        !schema[j].required ==> resolve_spec(schema[j], cell_at(cells, j))
            == Ok::<ValueModel, CellFault>(ValueModel::Null),
        (schema[j].required && (forall|k: int|
            0 <= k < j ==> resolve_spec(schema[k], cell_at(cells, k)) is Ok)) ==> row_spec(
            schema,
            cells,
            row,
        ) == Err::<Seq<ValueModel>, ErrorModel>(
            ErrorModel::MissingColumn { row, col: j, name: schema[j].name },
        ),
{
    if schema[j].required && (forall|k: int|
        0 <= k < j ==> resolve_spec(schema[k], cell_at(cells, k)) is Ok) {
        lemma_row_spec_err_from(schema, cells, row, 0, j);
    }
}

/// A non-required column with an absent entry always resolves to `Null`,
/// whatever its declared type.
pub proof fn lemma_optional_absent_is_null(col: ColumnModel, cell: Option<Seq<char>>)
    requires
        cell is None,
        !col.required,
    ensures
        resolve_spec(col, cell) == Ok::<ValueModel, CellFault>(ValueModel::Null),
{
}

/// A required column whose entry is absent fails the row with
/// `MissingColumn` — never `TypeMismatch` — carrying the row index and the
/// column's index and name.
pub proof fn lemma_required_absent_is_missing(
    schema: Seq<ColumnModel>,
    cells: Seq<Option<Seq<char>>>,
    row: int,
    j: int,
)
    requires
        0 <= j < schema.len(),
        cell_at(cells, j) is None,
        schema[j].required,
        forall|k: int| 0 <= k < j ==> resolve_spec(schema[k], cell_at(cells, k)) is Ok,
    ensures
        row_spec(schema, cells, row) == Err::<Seq<ValueModel>, ErrorModel>(
            ErrorModel::MissingColumn { row, col: j, name: schema[j].name },
        ),
        row_spec(schema, cells, row)->Err_0 is MissingColumn,
{
    lemma_row_spec_err_from(schema, cells, row, 0, j);
}

/// A present value whose text fails its column's literal grammar fails the
/// row with `TypeMismatch`, carrying the exact offending text and the
/// expected type's label.
pub proof fn lemma_present_mismatch(
    schema: Seq<ColumnModel>,
    cells: Seq<Option<Seq<char>>>,
    row: int,
    j: int,
    text: Seq<char>,
)
    requires
        0 <= j < schema.len(),
        cell_at(cells, j) == Some(text),
        parse_cell_spec(schema[j].data_type, text) is None,
        forall|k: int| 0 <= k < j ==> resolve_spec(schema[k], cell_at(cells, k)) is Ok,
    ensures
        row_spec(schema, cells, row) == Err::<Seq<ValueModel>, ErrorModel>(
            ErrorModel::TypeMismatch {
                row,
                col: j,
                name: schema[j].name,
                expected: type_label(schema[j].data_type),
                actual: text,
            },
        ),
{
    lemma_row_spec_err_from(schema, cells, row, 0, j);
}

} // verus!
