use typed_rows::policy::{apply_policy, ErrorAction, OnError};
use typed_rows::row::{ParseError, RawCell, Record};
use typed_rows::schema::{generate_default_schema, generate_schema, Column, Schema};
use typed_rows::values::{parse_cell, DataType, DataValue};

fn present(s: &str) -> RawCell {
    RawCell::Present(s.to_string())
}

fn name_age_schema() -> Schema {
    Schema {
        columns: vec![
            Column { name: "name".to_string(), data_type: DataType::Text, required: true },
            Column { name: "age".to_string(), data_type: DataType::Integer, required: false },
        ],
    }
}

#[test]
fn scenario_text_and_integer() {
    let schema = name_age_schema();
    let row = vec![present("Ann"), present("34")];
    let rec = schema.parse_row(0, &row).unwrap();
    assert_eq!(rec.len(), 2);
    assert_eq!(*rec.get(0), DataValue::Text("Ann".to_string()));
    assert_eq!(*rec.get(1), DataValue::Integer(34));
}

#[test]
fn scenario_absent_optional_resolves_null() {
    let schema = name_age_schema();
    let row = vec![present("Ann")];
    let rec = schema.parse_row(0, &row).unwrap();
    assert_eq!(rec.len(), 2);
    assert_eq!(*rec.get(0), DataValue::Text("Ann".to_string()));
    assert_eq!(*rec.get(1), DataValue::Null);
}

#[test]
fn scenario_absent_required_is_missing_column() {
    let schema = name_age_schema();
    let row = vec![RawCell::Absent, present("34")];
    match schema.parse_row(7, &row) {
        Err(ParseError::MissingColumn { row, col, name }) => {
            assert_eq!(row, 7);
            assert_eq!(col, 0);
            assert_eq!(name, "name");
        },
        other => panic!("expected MissingColumn, got {:?}", other),
    }
}

#[test]
fn scenario_integer_mismatch() {
    let schema = Schema {
        columns: vec![
            Column { name: "score".to_string(), data_type: DataType::Integer, required: false },
        ],
    };
    match schema.parse_row(3, &vec![present("abc")]) {
        Err(ParseError::TypeMismatch { row, col, name, expected, actual }) => {
            assert_eq!(row, 3);
            assert_eq!(col, 0);
            assert_eq!(name, "score");
            assert_eq!(expected, "Integer");
            assert_eq!(actual, "abc");
        },
        other => panic!("expected TypeMismatch, got {:?}", other),
    }
}

#[test]
fn scenario_header_derived_schema() {
    let header = vec!["Name".to_string(), "\"Score\"".to_string()];
    let schema = generate_schema(&header);
    assert_eq!(schema.len(), 2);
    assert_eq!(schema.columns[0].name, "Name");
    assert_eq!(schema.columns[1].name, "Score");
    for col in &schema.columns {
        assert!(matches!(col.data_type, DataType::Text));
        assert!(!col.required);
    }
}

#[test]
fn default_schema_names_by_position() {
    let schema = generate_default_schema(11);
    assert_eq!(schema.len(), 11);
    assert_eq!(schema.columns[0].name, "#0");
    assert_eq!(schema.columns[9].name, "#9");
    assert_eq!(schema.columns[10].name, "#10");
    for col in &schema.columns {
        assert!(matches!(col.data_type, DataType::Text));
        assert!(!col.required);
    }
}

#[test]
fn short_row_required_trailing_column() {
    let schema = Schema {
        columns: vec![
            Column { name: "a".to_string(), data_type: DataType::Text, required: false },
            Column { name: "b".to_string(), data_type: DataType::Text, required: true },
        ],
    };
    match schema.parse_row(2, &vec![present("x")]) {
        Err(ParseError::MissingColumn { row, col, name }) => {
            assert_eq!(row, 2);
            assert_eq!(col, 1);
            assert_eq!(name, "b");
        },
        other => panic!("expected MissingColumn, got {:?}", other),
    }
}

#[test]
fn empty_row_all_optional_gives_all_null() {
    let schema = generate_default_schema(3);
    let rec = schema.parse_row(0, &vec![]).unwrap();
    assert_eq!(rec.len(), 3);
    for i in 0..3 {
        assert_eq!(*rec.get(i), DataValue::Null);
    }
}

#[test]
fn empty_schema_accepts_any_row() {
    let schema = Schema { columns: vec![] };
    let rec = schema.parse_row(0, &vec![present("ignored")]) .unwrap();
    assert_eq!(rec.len(), 0);
}

#[test]
fn present_empty_text_is_empty_text_not_null() {
    let schema = generate_default_schema(1);
    let rec = schema.parse_row(0, &vec![present("")]).unwrap();
    assert_eq!(*rec.get(0), DataValue::Text(String::new()));
}

#[test]
fn typed_cells_parse_by_declared_type() {
    assert_eq!(
        parse_cell(DataType::Integer, &"42".to_string()),
        Some(DataValue::Integer(42))
    );
    assert_eq!(
        parse_cell(DataType::Integer, &"-17".to_string()),
        Some(DataValue::Integer(-17))
    );
    assert_eq!(
        parse_cell(DataType::Integer, &"+8".to_string()),
        Some(DataValue::Integer(8))
    );
    assert_eq!(
        parse_cell(DataType::Boolean, &"true".to_string()),
        Some(DataValue::Boolean(true))
    );
    assert_eq!(
        parse_cell(DataType::Boolean, &"false".to_string()),
        Some(DataValue::Boolean(false))
    );
    assert_eq!(
        parse_cell(DataType::Float, &"3.5".to_string()),
        Some(DataValue::Float("3.5".to_string()))
    );
    assert_eq!(
        parse_cell(DataType::Text, &"7".to_string()),
        Some(DataValue::Text("7".to_string()))
    );
}

#[test]
fn integer_literal_edges() {
    let t = |s: &str| parse_cell(DataType::Integer, &s.to_string());
    assert_eq!(t("9223372036854775807"), Some(DataValue::Integer(i64::MAX)));
    assert_eq!(t("-9223372036854775808"), Some(DataValue::Integer(i64::MIN)));
    assert_eq!(t("9223372036854775808"), None);
    assert_eq!(t("-9223372036854775809"), None);
    assert_eq!(t("99999999999999999999999999"), None);
    assert_eq!(t(""), None);
    assert_eq!(t("+"), None);
    assert_eq!(t("-"), None);
    assert_eq!(t("4 2"), None);
    assert_eq!(t(" 42"), None);
    assert_eq!(t("0x10"), None);
    assert_eq!(t("12.5"), None);
    assert_eq!(t("007"), Some(DataValue::Integer(7)));
}

#[test]
fn boolean_literal_is_case_sensitive() {
    let t = |s: &str| parse_cell(DataType::Boolean, &s.to_string());
    assert_eq!(t("True"), None);
    assert_eq!(t("FALSE"), None);
    assert_eq!(t("1"), None);
    assert_eq!(t(""), None);
}

#[test]
fn float_literal_grammar() {
    let ok = |s: &str| {
        assert_eq!(
            parse_cell(DataType::Float, &s.to_string()),
            Some(DataValue::Float(s.to_string())),
            "expected {:?} to be accepted",
            s
        );
        // The grammar matches what std's float parsing accepts.
        assert!(s.parse::<f64>().is_ok(), "std rejects {:?}", s);
    };
    let bad = |s: &str| {
        assert_eq!(parse_cell(DataType::Float, &s.to_string()), None, "expected {:?} rejected", s);
        assert!(s.parse::<f64>().is_err(), "std accepts {:?}", s);
    };
    ok("0");
    ok("3.5");
    ok("-3.50");
    ok("+.5");
    ok("2.");
    ok("1e10");
    ok("2.5E-3");
    ok("-1.25e+7");
    ok("inf");
    ok("-inf");
    ok("Infinity");
    ok("NaN");
    ok("+nan");
    bad("");
    bad("abc");
    bad(".");
    bad("1e");
    bad("e5");
    bad("1.2.3");
    bad("--1");
    bad("1.5e2.5");
    bad("in");
    bad("infx");
    bad("4 2");
}

#[test]
fn render_round_trip_concrete() {
    let cases = vec![
        (DataType::Text, DataValue::Text("Ann".to_string())),
        (DataType::Integer, DataValue::Integer(34)),
        (DataType::Integer, DataValue::Integer(-17)),
        (DataType::Integer, DataValue::Integer(i64::MIN)),
        (DataType::Integer, DataValue::Integer(0)),
        (DataType::Float, DataValue::Float("3.5".to_string())),
        (DataType::Boolean, DataValue::Boolean(true)),
        (DataType::Boolean, DataValue::Boolean(false)),
    ];
    for (dt, v) in cases {
        let text = v.to_csv_string();
        assert_eq!(parse_cell(dt, &text), Some(v));
    }
}

#[test]
fn null_renders_empty_and_reparses_as_empty_text() {
    let text = DataValue::Null.to_csv_string();
    assert_eq!(text, "");
    assert_eq!(parse_cell(DataType::Text, &text), Some(DataValue::Text(String::new())));
}

#[test]
fn rendering_values_to_text() {
    assert_eq!(DataValue::Integer(42).to_csv_string(), "42");
    assert_eq!(DataValue::Integer(-1).to_csv_string(), "-1");
    assert_eq!(DataValue::Integer(i64::MAX).to_csv_string(), "9223372036854775807");
    assert_eq!(DataValue::Integer(i64::MIN).to_csv_string(), "-9223372036854775808");
    assert_eq!(DataValue::Boolean(true).to_csv_string(), "true");
    assert_eq!(DataValue::Boolean(false).to_csv_string(), "false");
    assert_eq!(DataValue::Text("hi".to_string()).to_csv_string(), "hi");
    assert_eq!(DataValue::Float("2.5E-3".to_string()).to_csv_string(), "2.5E-3");
    assert_eq!(DataValue::Null.to_csv_string(), "");
}

#[test]
fn record_renders_all_fields_in_order() {
    let rec = Record(vec![
        DataValue::Text("Ann".to_string()),
        DataValue::Integer(34),
        DataValue::Null,
    ]);
    let fields = rec.to_text_fields();
    assert_eq!(fields, vec!["Ann".to_string(), "34".to_string(), String::new()]);
}

#[test]
fn describe_mismatch_message() {
    let e = ParseError::TypeMismatch {
        row: 3,
        col: 0,
        name: "score".to_string(),
        expected: "Integer".to_string(),
        actual: "abc".to_string(),
    };
    assert_eq!(
        e.describe(),
        "row 3, col 0 ('score'): type does not match. expected: Integer, actual: abc"
    );
}

#[test]
fn describe_missing_message() {
    let e = ParseError::MissingColumn { row: 12, col: 4, name: "name".to_string() };
    assert_eq!(e.describe(), "row 12: required 'name' (index: 4)");
}

#[test]
fn describe_validation_message() {
    let e = ParseError::ValidationError { row: 1, col: 2, message: "out of range".to_string() };
    assert_eq!(e.describe(), "row 1, col 2: validation error: out of range");
}

#[test]
fn policy_decides_action() {
    let e = ParseError::MissingColumn { row: 0, col: 0, name: "name".to_string() };
    assert!(matches!(apply_policy(&OnError::Fail, &e), ErrorAction::Halt));
    assert!(matches!(apply_policy(&OnError::Skip, &e), ErrorAction::Discard));
    match apply_policy(&OnError::Log, &e) {
        ErrorAction::Report(m) => assert_eq!(m, "row 0: required 'name' (index: 0)"),
        other => panic!("expected Report, got {:?}", other),
    }
}

#[test]
fn quote_stripping_handles_edges() {
    let schema = generate_schema(&vec![
        "\"\"".to_string(),
        "\"\"\"x\"\"\"".to_string(),
        "a\"b".to_string(),
        String::new(),
    ]);
    assert_eq!(schema.columns[0].name, "");
    assert_eq!(schema.columns[1].name, "x");
    assert_eq!(schema.columns[2].name, "a\"b");
    assert_eq!(schema.columns[3].name, "");
}

#[test]
fn first_failing_column_wins() {
    let schema = Schema {
        columns: vec![
            Column { name: "a".to_string(), data_type: DataType::Integer, required: false },
            Column { name: "b".to_string(), data_type: DataType::Boolean, required: true },
        ],
    };
    // Both columns are bad; the error addresses the first.
    match schema.parse_row(5, &vec![present("x")]) {
        Err(ParseError::TypeMismatch { col, name, expected, actual, .. }) => {
            assert_eq!(col, 0);
            assert_eq!(name, "a");
            assert_eq!(expected, "Integer");
            assert_eq!(actual, "x");
        },
        other => panic!("expected TypeMismatch, got {:?}", other),
    }
}

#[test]
fn unicode_text_passes_through() {
    let schema = generate_default_schema(1);
    let rec = schema.parse_row(0, &vec![present("héllo ☃")]).unwrap();
    assert_eq!(*rec.get(0), DataValue::Text("héllo ☃".to_string()));
    assert_eq!(rec.to_text_fields()[0], "héllo ☃");
}
