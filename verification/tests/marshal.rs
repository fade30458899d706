//! The marshaller: strict decoding, total encoding, and the round
//! trip between them.
use simple_lancedb::batch::{Batch, Cell};
use simple_lancedb::codec::{decode_rows, encode_cell, encode_rows, DecodeError};
use simple_lancedb::json::{JsonValue, NumLit};
use simple_lancedb::schema::{ElemType, Field, LogicalType, TableSchema};

fn field(name: &str, dtype: LogicalType, nullable: bool) -> Field {
    Field { name: name.to_string(), dtype, nullable }
}

fn obj(entries: Vec<(&str, JsonValue)>) -> JsonValue {
    JsonValue::Obj(entries.into_iter().map(|(k, v)| (k.to_string(), v)).collect())
}

fn jnum(v: i64) -> JsonValue {
    JsonValue::Num(NumLit::Int(v))
}

#[test]
fn decode_one_int32_row() {
    let schema = TableSchema { fields: vec![field("id", LogicalType::Int32, false)] };
    let rows = vec![obj(vec![("id", jnum(7))])];
    let batch = decode_rows(&schema, &rows).unwrap();
    assert_eq!(batch.nrows, 1);
    assert_eq!(batch.cols, vec![vec![Cell::I32(7)]]);
}

#[test]
fn decode_rejects_out_of_range_int32() {
    let schema = TableSchema { fields: vec![field("x", LogicalType::Int32, false)] };
    let rows = vec![obj(vec![("x", jnum(99999999999))])];
    let err = decode_rows(&schema, &rows).unwrap_err();
    assert_eq!(
        err,
        DecodeError::OutOfRange {
            field: "x".to_string(),
            value: 99999999999,
            dtype: LogicalType::Int32
        }
    );
    assert_eq!(
        err.message(),
        "Number 99999999999 out of range for i32 in field x"
    );
}

#[test]
fn decode_accepts_int32_boundaries() {
    let schema = TableSchema { fields: vec![field("x", LogicalType::Int32, false)] };
    let rows = vec![
        obj(vec![("x", jnum(2147483647))]),
        obj(vec![("x", jnum(-2147483648))]),
    ];
    let batch = decode_rows(&schema, &rows).unwrap();
    assert_eq!(batch.cols, vec![vec![Cell::I32(2147483647), Cell::I32(-2147483648)]]);
}

#[test]
fn decode_rejects_fraction_on_int_field() {
    let schema = TableSchema { fields: vec![field("x", LogicalType::Int64, false)] };
    let rows = vec![obj(vec![("x", JsonValue::Num(NumLit::Dec("1.5".to_string())))])];
    let err = decode_rows(&schema, &rows).unwrap_err();
    assert_eq!(err, DecodeError::InvalidNumber { field: "x".to_string() });
    assert_eq!(err.message(), "Invalid number format in field x");
}

#[test]
fn null_and_missing_decode_to_null_cells() {
    let schema = TableSchema { fields: vec![field("a", LogicalType::Utf8, true)] };
    let rows = vec![obj(vec![("a", JsonValue::Null)]), obj(vec![])];
    let batch = decode_rows(&schema, &rows).unwrap();
    assert_eq!(batch.cols, vec![vec![Cell::Null, Cell::Null]]);
}

#[test]
fn missing_required_field_is_rejected() {
    let schema = TableSchema { fields: vec![field("a", LogicalType::Utf8, false)] };
    let rows = vec![obj(vec![])];
    let err = decode_rows(&schema, &rows).unwrap_err();
    assert_eq!(err, DecodeError::Missing { field: "a".to_string() });
    assert_eq!(err.message(), "Missing required field a");
}

#[test]
fn explicit_null_on_required_field_is_a_type_mismatch() {
    let schema = TableSchema { fields: vec![field("a", LogicalType::Int32, false)] };
    let rows = vec![obj(vec![("a", JsonValue::Null)])];
    let err = decode_rows(&schema, &rows).unwrap_err();
    assert_eq!(err, DecodeError::NotNumber { field: "a".to_string() });
    assert_eq!(
        err.message(),
        "Expected number for field a but got different type"
    );
}

#[test]
fn type_mismatch_is_field_specific() {
    let schema = TableSchema {
        fields: vec![
            field("b", LogicalType::Boolean, false),
            field("s", LogicalType::Utf8, false),
        ],
    };
    let rows = vec![obj(vec![("b", jnum(1)), ("s", JsonValue::Str("x".to_string()))])];
    let err = decode_rows(&schema, &rows).unwrap_err();
    assert_eq!(err, DecodeError::NotBool { field: "b".to_string() });
}

#[test]
fn wrong_vector_arity_fails_whole_batch() {
    let schema = TableSchema {
        fields: vec![
            field("id", LogicalType::Int32, false),
            field("v", LogicalType::FixedSizeList(ElemType::Float32, 4), false),
        ],
    };
    let good = obj(vec![
        ("id", jnum(1)),
        ("v", JsonValue::Arr(vec![jnum(1), jnum(2), jnum(3), jnum(4)])),
    ]);
    let short = obj(vec![("id", jnum(2)), ("v", JsonValue::Arr(vec![jnum(1), jnum(2)]))]);
    let rows = vec![good, short];
    let err = decode_rows(&schema, &rows).unwrap_err();
    assert_eq!(
        err,
        DecodeError::WrongArity { field: "v".to_string(), expected: 4, got: 2 }
    );
    assert_eq!(err.message(), "Vector field v expects 4 elements but got 2");
}

#[test]
fn vector_elements_must_be_numbers() {
    let schema = TableSchema {
        fields: vec![field("v", LogicalType::FixedSizeList(ElemType::Float32, 2), false)],
    };
    let rows = vec![obj(vec![(
        "v",
        JsonValue::Arr(vec![jnum(1), JsonValue::Str("no".to_string())]),
    )])];
    let err = decode_rows(&schema, &rows).unwrap_err();
    assert_eq!(err, DecodeError::BadElem { field: "v".to_string() });
}

#[test]
fn binary_fields_fail_even_with_no_rows() {
    let schema = TableSchema { fields: vec![field("a", LogicalType::Binary, false)] };
    let rows: Vec<JsonValue> = vec![];
    let err = decode_rows(&schema, &rows).unwrap_err();
    assert_eq!(err, DecodeError::UnsupportedType { dtype: LogicalType::Binary });
    assert_eq!(err.message(), "Unsupported data type: binary");
}

#[test]
fn narrow_integers_decode_with_width_range_checks() {
    let schema = TableSchema {
        fields: vec![
            field("a", LogicalType::Int8, false),
            field("b", LogicalType::Int16, false),
        ],
    };
    let rows = vec![obj(vec![("a", jnum(-128)), ("b", jnum(32767))])];
    let batch = decode_rows(&schema, &rows).unwrap();
    assert_eq!(batch.cols, vec![vec![Cell::I8(-128)], vec![Cell::I16(32767)]]);

    let rows = vec![obj(vec![("a", jnum(128)), ("b", jnum(0))])];
    let err = decode_rows(&schema, &rows).unwrap_err();
    assert_eq!(
        err,
        DecodeError::OutOfRange { field: "a".to_string(), value: 128, dtype: LogicalType::Int8 }
    );
    assert_eq!(err.message(), "Number 128 out of range for i8 in field a");

    let rows = vec![obj(vec![("a", jnum(0)), ("b", jnum(-32769))])];
    let err = decode_rows(&schema, &rows).unwrap_err();
    assert_eq!(
        err,
        DecodeError::OutOfRange {
            field: "b".to_string(),
            value: -32769,
            dtype: LogicalType::Int16
        }
    );
    assert_eq!(err.message(), "Number -32769 out of range for i16 in field b");
}

#[test]
fn empty_schema_describes_no_batch() {
    let schema = TableSchema { fields: vec![] };
    let err = decode_rows(&schema, &vec![]).unwrap_err();
    assert_eq!(err, DecodeError::NoColumns);
}

#[test]
fn decode_is_column_major_first_error_wins() {
    let schema = TableSchema {
        fields: vec![
            field("a", LogicalType::Int32, false),
            field("b", LogicalType::Int32, false),
        ],
    };
    // Row 0 has a bad "b", row 1 has a bad "a"; the first column is
    // decoded over all rows first, so the "a" error of row 1 wins.
    let rows = vec![
        obj(vec![("a", jnum(1)), ("b", JsonValue::Bool(true))]),
        obj(vec![("a", JsonValue::Bool(true)), ("b", jnum(2))]),
    ];
    let err = decode_rows(&schema, &rows).unwrap_err();
    assert_eq!(err, DecodeError::NotNumber { field: "a".to_string() });
}

#[test]
fn encode_maps_nulls_and_values() {
    assert_eq!(encode_cell(&Cell::Null), JsonValue::Null);
    assert_eq!(encode_cell(&Cell::I8(-5)), jnum(-5));
    assert_eq!(encode_cell(&Cell::I16(300)), jnum(300));
    assert_eq!(encode_cell(&Cell::I32(5)), jnum(5));
    assert_eq!(encode_cell(&Cell::I64(-9)), jnum(-9));
    assert_eq!(encode_cell(&Cell::Bool(true)), JsonValue::Bool(true));
    assert_eq!(
        encode_cell(&Cell::Str("hi".to_string())),
        JsonValue::Str("hi".to_string())
    );
    assert_eq!(
        encode_cell(&Cell::Num(NumLit::Dec("0.5".to_string()))),
        JsonValue::Num(NumLit::Dec("0.5".to_string()))
    );
    assert_eq!(
        encode_cell(&Cell::Arr(vec![Cell::I32(1), Cell::Null])),
        JsonValue::Arr(vec![jnum(1), JsonValue::Null])
    );
    assert_eq!(
        encode_cell(&Cell::Tag("Unsupported type: Date32".to_string())),
        JsonValue::Str("Unsupported type: Date32".to_string())
    );
}

#[test]
fn encode_rows_one_object_per_row_in_field_order() {
    let schema = TableSchema {
        fields: vec![
            field("id", LogicalType::Int32, false),
            field("name", LogicalType::Utf8, true),
        ],
    };
    let batch = Batch {
        schema,
        cols: vec![
            vec![Cell::I32(1), Cell::I32(2)],
            vec![Cell::Str("a".to_string()), Cell::Null],
        ],
        nrows: 2,
    };
    let rows = encode_rows(&batch);
    assert_eq!(
        rows,
        vec![
            obj(vec![("id", jnum(1)), ("name", JsonValue::Str("a".to_string()))]),
            obj(vec![("id", jnum(2)), ("name", JsonValue::Null)]),
        ]
    );
}

#[test]
fn round_trip_decode_encode_decode_is_stable() {
    let schema = TableSchema {
        fields: vec![
            field("id", LogicalType::Int32, false),
            field("score", LogicalType::Float64, true),
            field("name", LogicalType::Utf8, true),
            field("ok", LogicalType::Boolean, false),
            field("big", LogicalType::Int64, true),
            field("tiny", LogicalType::Int8, true),
            field("short", LogicalType::Int16, true),
            field("half", LogicalType::Float16, true),
            field("v", LogicalType::FixedSizeList(ElemType::Float32, 2), true),
            field("w", LogicalType::FixedSizeList(ElemType::Int64, 2), true),
        ],
    };
    let rows = vec![
        obj(vec![
            ("id", jnum(1)),
            ("tiny", jnum(-5)),
            ("short", jnum(300)),
            ("half", JsonValue::Num(NumLit::Dec("0.5".to_string()))),
            ("w", JsonValue::Arr(vec![jnum(7), jnum(8)])),
            ("score", JsonValue::Num(NumLit::Dec("0.25".to_string()))),
            ("name", JsonValue::Str("ada".to_string())),
            ("ok", JsonValue::Bool(true)),
            ("big", jnum(1234567890123)),
            (
                "v",
                JsonValue::Arr(vec![
                    JsonValue::Num(NumLit::Dec("0.1".to_string())),
                    jnum(2),
                ]),
            ),
        ]),
        obj(vec![
            ("id", jnum(2)),
            ("score", JsonValue::Null),
            ("ok", JsonValue::Bool(false)),
            ("v", JsonValue::Null),
        ]),
    ];
    let once = decode_rows(&schema, &rows).unwrap();
    let encoded = encode_rows(&once);
    let twice = decode_rows(&schema, &encoded).unwrap();
    assert_eq!(once, twice);
}

#[test]
fn float16_fields_carry_the_literal() {
    let schema = TableSchema { fields: vec![field("h", LogicalType::Float16, true)] };
    let rows = vec![
        obj(vec![("h", JsonValue::Num(NumLit::Dec("0.5".to_string())))]),
        obj(vec![]),
    ];
    let batch = decode_rows(&schema, &rows).unwrap();
    assert_eq!(
        batch.cols,
        vec![vec![Cell::Num(NumLit::Dec("0.5".to_string())), Cell::Null]]
    );
}

#[test]
fn vector_fields_of_every_numeric_element_decode() {
    let schema = TableSchema {
        fields: vec![field("v", LogicalType::FixedSizeList(ElemType::Int8, 3), true)],
    };
    let rows = vec![obj(vec![(
        "v",
        JsonValue::Arr(vec![jnum(1), jnum(2), jnum(3)]),
    )])];
    let batch = decode_rows(&schema, &rows).unwrap();
    assert_eq!(
        batch.cols,
        vec![vec![Cell::Arr(vec![
            Cell::Num(NumLit::Int(1)),
            Cell::Num(NumLit::Int(2)),
            Cell::Num(NumLit::Int(3)),
        ])]]
    );
    // The arity check still guards every element type.
    let short = vec![obj(vec![("v", JsonValue::Arr(vec![jnum(1)]))])];
    let err = decode_rows(&schema, &short).unwrap_err();
    assert_eq!(
        err,
        DecodeError::WrongArity { field: "v".to_string(), expected: 3, got: 1 }
    );
}

#[test]
fn non_object_rows_read_as_all_keys_absent() {
    let schema = TableSchema { fields: vec![field("a", LogicalType::Int32, true)] };
    let batch = decode_rows(&schema, &vec![jnum(5)]).unwrap();
    assert_eq!(batch.cols, vec![vec![Cell::Null]]);
}

#[test]
fn rejections_leave_the_library_usable() {
    // A rejected decode is an ordinary value, not a poisoned state:
    // unrelated work afterwards proceeds normally.
    let bad = TableSchema { fields: vec![field("x", LogicalType::Int32, false)] };
    let rows = vec![obj(vec![("x", JsonValue::Bool(true))])];
    assert!(decode_rows(&bad, &rows).is_err());
    let good = TableSchema { fields: vec![field("y", LogicalType::Int64, false)] };
    let batch = decode_rows(&good, &vec![obj(vec![("y", jnum(10))])]).unwrap();
    assert_eq!(batch.cols, vec![vec![Cell::I64(10)]]);
}
