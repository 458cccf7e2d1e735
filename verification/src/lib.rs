//! Schema-driven row validation: maps an untyped tabular row onto a declared
//! column schema, enforcing per-column types and required-ness, and reporting
//! row/column-addressed errors.

pub mod float_text;
pub mod laws;
pub mod numerals;
pub mod policy;
pub mod row;
pub mod schema;
pub mod values;

pub use policy::{ErrorAction, OnError};
pub use row::{ParseError, RawCell, Record};
pub use schema::{generate_default_schema, generate_schema, Column, Schema};
pub use values::{DataType, DataValue};
