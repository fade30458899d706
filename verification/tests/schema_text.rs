//! Schema descriptions and the text helpers under them.
use simple_lancedb::json::{JsonValue, NumLit};
use simple_lancedb::schema::{
    parse_schema, parse_type, ElemType, Field, LogicalType, SchemaError, TableSchema,
};
use simple_lancedb::text::{i32_to_string, i64_to_string, parse_i32, u64_to_string};

fn obj(entries: Vec<(&str, JsonValue)>) -> JsonValue {
    JsonValue::Obj(entries.into_iter().map(|(k, v)| (k.to_string(), v)).collect())
}

fn field_doc(name: &str, ty: &str, nullable: Option<bool>) -> JsonValue {
    let mut entries = vec![
        ("name", JsonValue::Str(name.to_string())),
        ("type", JsonValue::Str(ty.to_string())),
    ];
    if let Some(b) = nullable {
        entries.push(("nullable", JsonValue::Bool(b)));
    }
    obj(entries)
}

#[test]
fn parse_scalar_type_names() {
    assert_eq!(parse_type("int8").unwrap(), LogicalType::Int8);
    assert_eq!(parse_type("int16").unwrap(), LogicalType::Int16);
    assert_eq!(parse_type("int32").unwrap(), LogicalType::Int32);
    assert_eq!(parse_type("int64").unwrap(), LogicalType::Int64);
    assert_eq!(parse_type("float16").unwrap(), LogicalType::Float16);
    assert_eq!(parse_type("float32").unwrap(), LogicalType::Float32);
    assert_eq!(parse_type("float64").unwrap(), LogicalType::Float64);
    assert_eq!(parse_type("string").unwrap(), LogicalType::Utf8);
    assert_eq!(parse_type("binary").unwrap(), LogicalType::Binary);
    assert_eq!(parse_type("boolean").unwrap(), LogicalType::Boolean);
}

#[test]
fn parse_fixed_size_list_types() {
    assert_eq!(
        parse_type("fixed_size_list[float32;4]").unwrap(),
        LogicalType::FixedSizeList(ElemType::Float32, 4)
    );
    assert_eq!(
        parse_type("fixed_size_list[int64;128]").unwrap(),
        LogicalType::FixedSizeList(ElemType::Int64, 128)
    );
}

#[test]
fn unknown_type_is_rejected_with_its_name() {
    let err = parse_type("date32").unwrap_err();
    assert_eq!(err, SchemaError::Unsupported("date32".to_string()));
    assert_eq!(err.message(), "Unsupported data type: date32");
}

#[test]
fn bad_vector_dimension_is_rejected_with_its_text() {
    let err = parse_type("fixed_size_list[float32;abc]").unwrap_err();
    assert_eq!(err, SchemaError::BadDimension("abc".to_string()));
    assert_eq!(err.message(), "Invalid vector dimension: abc");
}

#[test]
fn trailing_brackets_are_all_stripped() {
    // The dimension text is what remains after every trailing ']' is
    // removed, as trimming every trailing bracket leaves it.
    assert_eq!(
        parse_type("fixed_size_list[float32;7]]").unwrap(),
        LogicalType::FixedSizeList(ElemType::Float32, 7)
    );
    assert_eq!(
        parse_type("fixed_size_list[float32;7").unwrap(),
        LogicalType::FixedSizeList(ElemType::Float32, 7)
    );
}

#[test]
fn parse_schema_reads_fields_in_order() {
    let doc = obj(vec![(
        "fields",
        JsonValue::Arr(vec![
            field_doc("id", "int32", Some(false)),
            field_doc("v", "fixed_size_list[float32;4]", Some(false)),
            field_doc("note", "string", None),
        ]),
    )]);
    let schema = parse_schema(&doc).unwrap();
    assert_eq!(
        schema,
        TableSchema {
            fields: vec![
                Field { name: "id".to_string(), dtype: LogicalType::Int32, nullable: false },
                Field {
                    name: "v".to_string(),
                    dtype: LogicalType::FixedSizeList(ElemType::Float32, 4),
                    nullable: false
                },
                Field { name: "note".to_string(), dtype: LogicalType::Utf8, nullable: true },
            ]
        }
    );
}

#[test]
fn nullable_defaults_to_true_even_when_malformed() {
    let doc = obj(vec![(
        "fields",
        JsonValue::Arr(vec![obj(vec![
            ("name", JsonValue::Str("a".to_string())),
            ("type", JsonValue::Str("int32".to_string())),
            ("nullable", JsonValue::Str("no".to_string())),
        ])]),
    )]);
    let schema = parse_schema(&doc).unwrap();
    assert!(schema.fields[0].nullable);
}

#[test]
fn schema_without_fields_array_is_rejected() {
    let err = parse_schema(&obj(vec![])).unwrap_err();
    assert_eq!(err, SchemaError::NoFields);
    assert_eq!(err.message(), "Schema JSON must have 'fields' array");
    let err = parse_schema(&obj(vec![("fields", JsonValue::Num(NumLit::Int(3)))])).unwrap_err();
    assert_eq!(err, SchemaError::NoFields);
}

#[test]
fn field_without_name_or_type_is_rejected() {
    let doc = obj(vec![(
        "fields",
        JsonValue::Arr(vec![obj(vec![("type", JsonValue::Str("int32".to_string()))])]),
    )]);
    let err = parse_schema(&doc).unwrap_err();
    assert_eq!(err.message(), "Field must have 'name' string");
    let doc = obj(vec![(
        "fields",
        JsonValue::Arr(vec![obj(vec![("name", JsonValue::Str("a".to_string()))])]),
    )]);
    let err = parse_schema(&doc).unwrap_err();
    assert_eq!(err.message(), "Field must have 'type' string");
}

#[test]
fn integers_render_in_decimal() {
    assert_eq!(u64_to_string(0), "0");
    assert_eq!(u64_to_string(90210), "90210");
    assert_eq!(u64_to_string(u64::MAX), "18446744073709551615");
    assert_eq!(i64_to_string(-1), "-1");
    assert_eq!(i64_to_string(i64::MIN), "-9223372036854775808");
    assert_eq!(i32_to_string(-2147483648), "-2147483648");
}

#[test]
fn parse_i32_reads_what_the_standard_parser_reads() {
    assert_eq!(parse_i32("0"), Some(0));
    assert_eq!(parse_i32("+42"), Some(42));
    assert_eq!(parse_i32("-2147483648"), Some(-2147483648));
    assert_eq!(parse_i32("2147483647"), Some(2147483647));
    assert_eq!(parse_i32("2147483648"), None);
    assert_eq!(parse_i32("-2147483649"), None);
    assert_eq!(parse_i32("007"), Some(7));
    assert_eq!(parse_i32(""), None);
    assert_eq!(parse_i32("+"), None);
    assert_eq!(parse_i32("1x"), None);
    assert_eq!(parse_i32(" 1"), None);
    assert_eq!(parse_i32("99999999999999999999"), None);
}
