//! The value model: the closed set of column types, the typed cell values a
//! validated record holds, their text rendering, and the one conversion from
//! a cell's text to a typed value. Rendering here is the single place that
//! decides how a typed value looks as text.

use crate::float_text::{is_float_literal, is_float_text};
use crate::numerals::{i64_to_string, int_text, parse_i64, parsed_i64};
use vstd::prelude::*;
use vstd::string::*;

verus! {

/// The closed set of column types a schema can declare.
#[derive(Clone, Copy, Debug, PartialEq, Eq, Structural)]
pub enum DataType {
    Text,
    Integer,
    Float,
    Boolean,
}

/// One validated cell value. A floating-point cell is carried as its literal
/// text, validated against the floating-point literal grammar.
#[derive(Debug, Clone)]
pub enum DataValue {
    Text(String),
    Integer(i64),
    Float(String),
    Boolean(bool),
    Null,
}

/// The mathematical model of a [`DataValue`].
pub enum ValueModel {
    Text(Seq<char>),
    Integer(int),
    Float(Seq<char>),
    Boolean(bool),
    Null,
}

impl View for DataValue {
    type V = ValueModel;

    open spec fn view(&self) -> ValueModel {
        match self {
            DataValue::Text(t) => ValueModel::Text(t@),
            DataValue::Integer(v) => ValueModel::Integer(*v as int),
            DataValue::Float(t) => ValueModel::Float(t@),
            DataValue::Boolean(b) => ValueModel::Boolean(*b),
            DataValue::Null => ValueModel::Null,
        }
    }
}

impl PartialEq for DataValue {
    fn eq(&self, other: &DataValue) -> (r: bool) {
        match (self, other) {
            (DataValue::Text(a), DataValue::Text(b)) => *a == *b,
            (DataValue::Integer(a), DataValue::Integer(b)) => *a == *b,
            (DataValue::Float(a), DataValue::Float(b)) => *a == *b,
            (DataValue::Boolean(a), DataValue::Boolean(b)) => *a == *b,
            (DataValue::Null, DataValue::Null) => true,
            _ => false,
        }
    }
}

impl vstd::std_specs::cmp::PartialEqSpecImpl for DataValue {
    open spec fn obeys_eq_spec() -> bool {
        true
    }

    open spec fn eq_spec(&self, other: &DataValue) -> bool {
        self@ == other@
    }
}

/// A value in range of its carrier: integers within 64 signed bits, float
/// text within the literal grammar.
pub open spec fn value_wf(v: ValueModel) -> bool {
    match v {
        ValueModel::Integer(i) => i64::MIN <= i <= i64::MAX,
        ValueModel::Float(t) => is_float_literal(t),
        _ => true,
    }
}

/// The column type a value belongs to; `Null` is placed with `Text`, where
/// absent cells of untyped schemas resolve.
pub open spec fn type_of_value(v: ValueModel) -> DataType {
    match v {
        ValueModel::Text(_) => DataType::Text,
        ValueModel::Integer(_) => DataType::Integer,
        ValueModel::Float(_) => DataType::Float,
        ValueModel::Boolean(_) => DataType::Boolean,
        ValueModel::Null => DataType::Text,
    }
}

/// The text a value renders to: text verbatim, integers in canonical decimal
/// form, booleans as their literal words, floating-point cells as their
/// validated literal text, and `Null` as the empty text.
pub open spec fn render_text(v: ValueModel) -> Seq<char> {
    match v {
        ValueModel::Text(t) => t,
        ValueModel::Integer(i) => int_text(i),
        ValueModel::Float(t) => t,
        ValueModel::Boolean(b) => if b {
            "true"@
        } else {
            "false"@
        },
        ValueModel::Null => Seq::empty(),
    }
}

/// What `str::parse::<bool>` returns: the two literal words, nothing else.
pub open spec fn parsed_bool(s: Seq<char>) -> Option<bool> {
    if s == "true"@ {
        Some(true)
    } else if s == "false"@ {
        Some(false)
    } else {
        None
    }
}

/// The value a present cell's text resolves to under a column type, or
/// `None` where the text fails that type's literal grammar.
pub open spec fn parse_cell_spec(dt: DataType, text: Seq<char>) -> Option<ValueModel> {
    match dt {
        DataType::Text => Some(ValueModel::Text(text)),
        DataType::Integer => match parsed_i64(text) {
            Some(v) => Some(ValueModel::Integer(v as int)),
            None => None,
        },
        DataType::Float => if is_float_literal(text) {
            Some(ValueModel::Float(text))
        } else {
            None
        },
        DataType::Boolean => match parsed_bool(text) {
            Some(b) => Some(ValueModel::Boolean(b)),
            None => None,
        },
    }
}

impl DataValue {
    /// Renders this value as one output text field.
    pub fn to_csv_string(&self) -> (r: String)
        ensures
            r@ == render_text(self@),
    {
        match self {
            DataValue::Integer(v) => i64_to_string(*v),
            DataValue::Float(t) => t.clone(),
            DataValue::Text(t) => t.clone(),
            DataValue::Boolean(b) => if *b {
                String::from_str("true")
            } else {
                String::from_str("false")
            },
            DataValue::Null => String::new(),
        }
    }
}

/// Interprets a present cell's text according to a column type.
pub fn parse_cell(dt: DataType, text: &String) -> (r: Option<DataValue>)
    ensures
        match r {
            Some(v) => parse_cell_spec(dt, text@) == Some(v@),
            None => parse_cell_spec(dt, text@) is None,
        },
{
    match dt {
        DataType::Text => Some(DataValue::Text(text.clone())),
        DataType::Integer => match parse_i64(text.as_str()) {
            Some(v) => Some(DataValue::Integer(v)),
            None => None,
        },
        DataType::Float => if is_float_text(text.as_str()) {
            Some(DataValue::Float(text.clone()))
        } else {
            None
        },
        DataType::Boolean => if *text == String::from_str("true") {
            Some(DataValue::Boolean(true))
        } else if *text == String::from_str("false") {
            Some(DataValue::Boolean(false))
        } else {
            None
        },
    }
}

/// Rendering a value to text and re-parsing that text under the value's own
/// column type recovers the value exactly, for every value but `Null`.
pub proof fn lemma_render_parse_round_trip(v: ValueModel)
    requires
        v !is Null,
        value_wf(v),
    ensures
        parse_cell_spec(type_of_value(v), render_text(v)) == Some(v),
{
    match v {
        ValueModel::Text(_) => {},
        ValueModel::Integer(i) => {
            if i >= 0 {
                let s = crate::numerals::dec_rep(i as nat);
                crate::numerals::lemma_dec_rep_digits(i as nat);
                crate::numerals::lemma_dec_rep_val(i as nat);
                assert(crate::numerals::is_digit_char(s[0]));
                assert(s[0] != '+' && s[0] != '-');
                assert(parsed_i64(s) == Some(i as i64));
            } else {
                let m = (-i) as nat;
                let s = seq!['-'] + crate::numerals::dec_rep(m);
                crate::numerals::lemma_dec_rep_digits(m);
                crate::numerals::lemma_dec_rep_val(m);
                assert(s[0] == '-');
                assert(s.drop_first() =~= crate::numerals::dec_rep(m));
                assert(parsed_i64(s) == Some(i as i64));
            }
        },
        ValueModel::Float(_) => {},
        ValueModel::Boolean(b) => {
            if !b {
                reveal_strlit("true");
                reveal_strlit("false");
                assert("false"@.len() == 5 && "true"@.len() == 4);
                assert("false"@ != "true"@);
            }
        },
        ValueModel::Null => {},
    }
}

/// `Null` renders to empty text, and empty text re-parsed against a text
/// column yields empty text, not `Null`.
pub proof fn lemma_null_round_trip()
    ensures
        render_text(ValueModel::Null) == Seq::<char>::empty(),
        parse_cell_spec(DataType::Text, render_text(ValueModel::Null)) == Some(
            ValueModel::Text(Seq::<char>::empty()),
        ),
{
}

} // verus!
