//! The row parser: consumes one schema and one raw row and produces either a
//! fully validated record or a row/column-addressed error. Failure is
//! all-or-nothing per row: the first failing column aborts the row and no
//! partial record is ever surfaced.

use crate::numerals::{dec_rep, u64_to_string};
use crate::schema::{ColumnModel, Schema};
use crate::values::{parse_cell, parse_cell_spec, DataType, DataValue, ValueModel};
use vstd::prelude::*;
use vstd::string::*;

verus! {

/// One untyped entry of a raw row: absent, or present with its text.
#[derive(Debug, Clone)]
pub enum RawCell {
    Absent,
    Present(String),
}

impl View for RawCell {
    type V = Option<Seq<char>>;

    open spec fn view(&self) -> Option<Seq<char>> {
        match self {
            RawCell::Absent => None,
            RawCell::Present(t) => Some(t@),
        }
    }
}

/// The models of a raw row's entries, in order.
pub open spec fn cells_model(cells: Seq<RawCell>) -> Seq<Option<Seq<char>>> {
    cells.map_values(|c: RawCell| c@)
}

/// A fully validated record: one typed value per column of the owning
/// schema, in column order.
#[derive(Debug)]
pub struct Record(pub Vec<DataValue>);

impl View for Record {
    type V = Seq<ValueModel>;

    open spec fn view(&self) -> Seq<ValueModel> {
        self.0@.map_values(|v: DataValue| v@)
    }
}

impl Record {
    /// The number of values, equal to the owning schema's column count.
    pub fn len(&self) -> (n: usize)
        ensures
            n == self@.len(),
    {
        self.0.len()
    }

    /// The value at one column position.
    pub fn get(&self, i: usize) -> (v: &DataValue)
        requires
            i < self@.len(),
        ensures
            v@ == self@[i as int],
    {
        &self.0[i]
    }

    /// Renders every value to its text field, in column order.
    pub fn to_text_fields(&self) -> (r: Vec<String>)
        ensures
            r@.len() == self@.len(),
            forall|j: int|
                0 <= j < self@.len() ==> r@[j]@ == crate::values::render_text(self@[j]),
    {
        let mut out: Vec<String> = Vec::new();
        let mut i: usize = 0;
        while i < self.0.len()
            invariant
                i <= self.0@.len(),
                out@.len() == i,
                forall|j: int|
                    0 <= j < i ==> out@[j]@ == crate::values::render_text(self@[j]),
            decreases self.0@.len() - i,
        {
            out.push(self.0[i].to_csv_string());
            i = i + 1;
        }
        out
    }
}

/// A parsing error, addressed by row and column.
#[derive(Debug)]
pub enum ParseError {
    /// A present value's text could not be interpreted as the column's
    /// declared type.
    TypeMismatch { row: usize, col: usize, name: String, expected: String, actual: String },
    /// A required column had no corresponding value in the row.
    MissingColumn { row: usize, col: usize, name: String },
    /// Reserved for semantic constraints beyond type-checking.
    ValidationError { row: usize, col: usize, message: String },
}

/// The mathematical model of a [`ParseError`].
pub enum ErrorModel {
    TypeMismatch { row: int, col: int, name: Seq<char>, expected: Seq<char>, actual: Seq<char> },
    MissingColumn { row: int, col: int, name: Seq<char> },
    ValidationError { row: int, col: int, message: Seq<char> },
}

impl View for ParseError {
    type V = ErrorModel;

    open spec fn view(&self) -> ErrorModel {
        match self {
            ParseError::TypeMismatch { row, col, name, expected, actual } => (
            ErrorModel::TypeMismatch {
                row: *row as int,
                col: *col as int,
                name: name@,
                expected: expected@,
                actual: actual@,
            }),
            ParseError::MissingColumn { row, col, name } => (ErrorModel::MissingColumn {
                row: *row as int,
                col: *col as int,
                name: name@,
            }),
            ParseError::ValidationError { row, col, message } => (ErrorModel::ValidationError {
                row: *row as int,
                col: *col as int,
                message: message@,
            }),
        }
    }
}

/// The display label of a column type, as carried in mismatch errors.
pub open spec fn type_label(dt: DataType) -> Seq<char> {
    match dt {
        DataType::Text => "Text"@,
        DataType::Integer => "Integer"@,
        DataType::Float => "Float"@,
        DataType::Boolean => "Boolean"@,
    }
}

/// The display label of a column type.
pub fn type_label_text(dt: DataType) -> (r: String)
    ensures
        r@ == type_label(dt),
{
    match dt {
        DataType::Text => String::from_str("Text"),
        DataType::Integer => String::from_str("Integer"),
        DataType::Float => String::from_str("Float"),
        DataType::Boolean => String::from_str("Boolean"),
    }
}

/// Why one cell failed to resolve under its column.
pub enum CellFault {
    MissingRequired,
    WrongType,
}

/// The entry a row holds at a column position; positions beyond the row's
/// length are absent.
pub open spec fn cell_at(cells: Seq<Option<Seq<char>>>, i: int) -> Option<Seq<char>> {
    if 0 <= i < cells.len() {
        cells[i]
    } else {
        None
    }
}

/// How one cell resolves under one column: an absent entry is an error for a
/// required column and `Null` otherwise; a present entry is interpreted
/// according to the column's declared type.
pub open spec fn resolve_spec(col: ColumnModel, cell: Option<Seq<char>>) -> Result<
    ValueModel,
    CellFault,
> {
    match cell {
        None => if col.required {
            Err(CellFault::MissingRequired)
        } else {
            Ok(ValueModel::Null)
        },
        Some(text) => match parse_cell_spec(col.data_type, text) {
            Some(v) => Ok(v),
            None => Err(CellFault::WrongType),
        },
    }
}

/// The error reported for a failing cell, carrying the row index, the
/// column's index and name, and for type mismatches the expected type label
/// and the offending text.
pub open spec fn fault_error(col: ColumnModel, cell: Option<Seq<char>>, row: int, idx: int) -> ErrorModel {
    match cell {
        None => (ErrorModel::MissingColumn { row, col: idx, name: col.name }),
        Some(text) => (ErrorModel::TypeMismatch {
            row,
            col: idx,
            name: col.name,
            expected: type_label(col.data_type),
            actual: text,
        }),
    }
}

/// The outcome of parsing a row against the columns from position `k` on:
/// the values in column order, or the error of the first failing column.
pub open spec fn row_spec_from(
    schema: Seq<ColumnModel>,
    cells: Seq<Option<Seq<char>>>,
    row: int,
    k: int,
) -> Result<Seq<ValueModel>, ErrorModel>
    decreases schema.len() - k,
{
    if k < 0 || k >= schema.len() {
        Ok(Seq::empty())
    } else {
        match resolve_spec(schema[k], cell_at(cells, k)) {
            Err(_) => Err(fault_error(schema[k], cell_at(cells, k), row, k)),
            Ok(v) => match row_spec_from(schema, cells, row, k + 1) {
                Ok(rest) => Ok(seq![v] + rest),
                Err(e) => Err(e),
            },
        }
    }
}

/// The outcome of parsing a whole row against a schema.
pub open spec fn row_spec(
    schema: Seq<ColumnModel>,
    cells: Seq<Option<Seq<char>>>,
    row: int,
) -> Result<Seq<ValueModel>, ErrorModel> {
    row_spec_from(schema, cells, row, 0)
}

/// The first failing column determines the row's error.
pub proof fn lemma_row_spec_err_from(
    schema: Seq<ColumnModel>,
    cells: Seq<Option<Seq<char>>>,
    row: int,
    k: int,
    i: int,
)
    requires
        0 <= k <= i < schema.len(),
        forall|j: int| k <= j < i ==> resolve_spec(schema[j], cell_at(cells, j)) is Ok,
        resolve_spec(schema[i], cell_at(cells, i)) is Err,
    ensures
        row_spec_from(schema, cells, row, k) == Err::<Seq<ValueModel>, ErrorModel>(
            fault_error(schema[i], cell_at(cells, i), row, i),
        ),
    decreases i - k,
{
    if k < i {
        lemma_row_spec_err_from(schema, cells, row, k + 1, i);
    }
}

/// A row whose columns all resolve yields exactly those values.
pub proof fn lemma_row_spec_ok_from(
    schema: Seq<ColumnModel>,
    cells: Seq<Option<Seq<char>>>,
    row: int,
    k: int,
    vals: Seq<ValueModel>,
)
    requires
        0 <= k <= schema.len(),
        vals.len() == schema.len(),
        forall|j: int|
            k <= j < schema.len() ==> resolve_spec(schema[j], cell_at(cells, j))
                == Ok::<ValueModel, CellFault>(vals[j]),
    ensures
        row_spec_from(schema, cells, row, k) == Ok::<Seq<ValueModel>, ErrorModel>(
            vals.subrange(k, vals.len() as int),
        ),
    decreases schema.len() - k,
{
    if k == schema.len() {
        assert(vals.subrange(k, vals.len() as int) =~= Seq::<ValueModel>::empty());
    } else {
        lemma_row_spec_ok_from(schema, cells, row, k + 1, vals);
        assert(seq![vals[k]] + vals.subrange(k + 1, vals.len() as int) =~= vals.subrange(
            k,
            vals.len() as int,
        ));
    }
}

impl Schema {
    /// Parses one raw row against this schema. Produces the validated record
    /// — one value per column, absent optional entries resolving to `Null` —
    /// or the error of the first failing column, addressed by `row_index`
    /// and the column's position and name.
    pub fn parse_row(&self, row_index: usize, raw_row: &Vec<RawCell>) -> (r: Result<
        Record,
        ParseError,
    >)
        ensures
            match r {
                Ok(rec) => row_spec(self@, cells_model(raw_row@), row_index as int)
                    == Ok::<Seq<ValueModel>, ErrorModel>(rec@),
                Err(e) => row_spec(self@, cells_model(raw_row@), row_index as int)
                    == Err::<Seq<ValueModel>, ErrorModel>(e@),
            },
    {
        let ghost cells = cells_model(raw_row@);
        let mut processed: Vec<DataValue> = Vec::new();
        let n = self.columns.len();
        let mut i: usize = 0;
        while i < n
            invariant
                i <= n,
                n == self.columns@.len(),
                cells == cells_model(raw_row@),
                processed@.len() == i,
                forall|j: int|
                    0 <= j < i ==> resolve_spec(self@[j], cell_at(cells, j))
                        == Ok::<ValueModel, CellFault>(processed@[j]@),
            decreases n - i,
        {
            let col = &self.columns[i];
            proof {
                assert(self@[i as int] == self.columns@[i as int]@);
            }
            let present_text: Option<&String> = if i < raw_row.len() {
                match &raw_row[i] {
                    RawCell::Absent => None,
                    RawCell::Present(t) => Some(t),
                }
            } else {
                None
            };
            proof {
                if i < raw_row@.len() {
                    assert(cells[i as int] == raw_row@[i as int]@);
                }
                assert(cell_at(cells, i as int) == (match present_text {
                    Some(t) => Some(t@),
                    None => None::<Seq<char>>,
                }));
            }
            match present_text {
                None => {
                    if col.required {
                        let e = ParseError::MissingColumn {
                            row: row_index,
                            col: i,
                            name: col.name.clone(),
                        };
                        proof {
                            lemma_row_spec_err_from(self@, cells, row_index as int, 0, i as int);
                        }
                        return Err(e);
                    } else {
                        processed.push(DataValue::Null);
                    }
                },
                Some(text) => {
                    match parse_cell(col.data_type, text) {
                        Some(v) => {
                            processed.push(v);
                        },
                        None => {
                            let e = ParseError::TypeMismatch {
                                row: row_index,
                                col: i,
                                name: col.name.clone(),
                                expected: type_label_text(col.data_type),
                                actual: text.clone(),
                            };
                            proof {
                                lemma_row_spec_err_from(self@, cells, row_index as int, 0, i as int);
                            }
                            return Err(e);
                        },
                    }
                },
            }
            i = i + 1;
        }
        let rec = Record(processed);
        proof {
            let vals = rec@;
            assert(forall|j: int| 0 <= j < n ==> vals[j] == processed@[j]@);
            lemma_row_spec_ok_from(self@, cells, row_index as int, 0, vals);
            assert(vals.subrange(0, vals.len() as int) =~= vals);
        }
        Ok(rec)
    }
}

/// The human-readable description of an error.
pub open spec fn error_text(e: ErrorModel) -> Seq<char> {
    match e {
        ErrorModel::TypeMismatch { row, col, name, expected, actual } => "row "@ + dec_rep(
            row as nat,
        ) + ", col "@ + dec_rep(col as nat) + " ('"@ + name
            + "'): type does not match. expected: "@ + expected + ", actual: "@ + actual,
        ErrorModel::MissingColumn { row, col, name } => "row "@ + dec_rep(row as nat)
            + ": required '"@ + name + "' (index: "@ + dec_rep(col as nat) + ")"@,
        ErrorModel::ValidationError { row, col, message } => "row "@ + dec_rep(row as nat)
            + ", col "@ + dec_rep(col as nat) + ": validation error: "@ + message,
    }
}

impl ParseError {
    /// Renders this error for the diagnostic boundary.
    pub fn describe(&self) -> (r: String)
        ensures
            r@ == error_text(self@),
    {
        match self {
            ParseError::TypeMismatch { row, col, name, expected, actual } => {
                let mut out = String::from_str("row ");
                out.append(u64_to_string(*row as u64).as_str());
                out.append(", col ");
                out.append(u64_to_string(*col as u64).as_str());
                out.append(" ('");
                out.append(name.as_str());
                out.append("'): type does not match. expected: ");
                out.append(expected.as_str());
                out.append(", actual: ");
                out.append(actual.as_str());
                out
            },
            ParseError::MissingColumn { row, col, name } => {
                let mut out = String::from_str("row ");
                out.append(u64_to_string(*row as u64).as_str());
                out.append(": required '");
                out.append(name.as_str());
                out.append("' (index: ");
                out.append(u64_to_string(*col as u64).as_str());
                out.append(")");
                out
            },
            ParseError::ValidationError { row, col, message } => {
                let mut out = String::from_str("row ");
                out.append(u64_to_string(*row as u64).as_str());
                out.append(", col ");
                out.append(u64_to_string(*col as u64).as_str());
                out.append(": validation error: ");
                out.append(message.as_str());
                out
            },
        }
    }
}

} // verus!
