//! The wire crossings: JSON text through the JSON library, and the
//! binary container through the interchange library.
use std::sync::Arc;

use arrow_array::{Float32Array, Int32Array, RecordBatch};
use arrow_ipc::reader::FileReader;
use arrow_ipc::writer::FileWriter;
use arrow_schema::{DataType, Field as ArrowField, Schema as ArrowSchema};

use simple_lancedb::ipc::{ingest_ipc, read_ipc_schema, schema_ipc, IpcIngest};
use simple_lancedb::json::{JsonValue, NumLit};
use simple_lancedb::wire::{parse_json, write_json};

fn obj(entries: Vec<(&str, JsonValue)>) -> JsonValue {
    JsonValue::Obj(entries.into_iter().map(|(k, v)| (k.to_string(), v)).collect())
}

#[test]
fn parse_json_reads_every_shape() {
    let doc = parse_json(
        "{\"a\": 1, \"b\": -2, \"big\": 18446744073709551615, \"f\": 0.5, \
         \"s\": \"hi\", \"t\": true, \"n\": null, \"arr\": [1, 2]}",
    )
    .unwrap();
    assert_eq!(
        doc,
        obj(vec![
            ("a", JsonValue::Num(NumLit::Int(1))),
            ("arr", JsonValue::Arr(vec![
                JsonValue::Num(NumLit::Int(1)),
                JsonValue::Num(NumLit::Int(2)),
            ])),
            ("b", JsonValue::Num(NumLit::Int(-2))),
            ("big", JsonValue::Num(NumLit::UInt(18446744073709551615))),
            ("f", JsonValue::Num(NumLit::Dec("0.5".to_string()))),
            ("n", JsonValue::Null),
            ("s", JsonValue::Str("hi".to_string())),
            ("t", JsonValue::Bool(true)),
        ])
    );
}

#[test]
fn parse_json_keeps_float_literals_as_the_parser_spells_them() {
    // The JSON library reads 1e2 as a float and spells it back in its
    // canonical decimal form.
    let doc = parse_json("[1e2, 0.1]").unwrap();
    assert_eq!(
        doc,
        JsonValue::Arr(vec![
            JsonValue::Num(NumLit::Dec("100.0".to_string())),
            JsonValue::Num(NumLit::Dec("0.1".to_string())),
        ])
    );
}

#[test]
fn parse_json_unescapes_strings() {
    let doc = parse_json("\"a\\nb\\\"c\"").unwrap();
    assert_eq!(doc, JsonValue::Str("a\nb\"c".to_string()));
}

#[test]
fn parse_json_reports_malformed_text() {
    assert!(parse_json("{\"a\": ").is_err());
    assert!(parse_json("").is_err());
}

fn sample_schema() -> ArrowSchema {
    ArrowSchema::new(vec![
        ArrowField::new("id", DataType::Int32, false),
        ArrowField::new("score", DataType::Float32, true),
    ])
}

fn sample_batch(schema: &ArrowSchema) -> RecordBatch {
    RecordBatch::try_new(
        Arc::new(schema.clone()),
        vec![
            Arc::new(Int32Array::from(vec![1, 2, 3])),
            Arc::new(Float32Array::from(vec![Some(0.5), None, Some(1.5)])),
        ],
    )
    .unwrap()
}

fn container_bytes(schema: &ArrowSchema, batches: &[RecordBatch]) -> Vec<u8> {
    let mut buf: Vec<u8> = Vec::new();
    {
        let mut writer = FileWriter::try_new(&mut buf, schema).unwrap();
        for b in batches {
            writer.write(b).unwrap();
        }
        writer.finish().unwrap();
    }
    buf
}

#[test]
fn ingest_ipc_reads_batches_and_counts_rows() {
    let schema = sample_schema();
    let batch = sample_batch(&schema);
    let bytes = container_bytes(&schema, &[batch.clone(), batch.clone()]);
    match ingest_ipc(&bytes).unwrap() {
        IpcIngest::Add(batches, total) => {
            assert_eq!(total, 6);
            assert_eq!(batches.len(), 2);
            assert_eq!(batches[0].raw, batch);
            assert_eq!(batches[1].raw, batch);
        }
        IpcIngest::Empty => panic!("expected batches"),
    }
}

#[test]
fn ingest_ipc_treats_no_payload_and_no_batches_as_nothing() {
    assert!(matches!(ingest_ipc(&Vec::new()).unwrap(), IpcIngest::Empty));
    let schema = sample_schema();
    let bytes = container_bytes(&schema, &[]);
    assert!(matches!(ingest_ipc(&bytes).unwrap(), IpcIngest::Empty));
}

#[test]
fn ingest_ipc_rejects_bytes_that_are_no_container() {
    let env = ingest_ipc(&vec![1, 2, 3, 4]).unwrap_err();
    assert!(!env.success);
    let msg = env.message.unwrap();
    assert!(msg.starts_with("Failed to parse IPC data: "), "{}", msg);
}

#[test]
fn schema_container_round_trips() {
    let schema = sample_schema();
    // Write through the library, read back with the interchange
    // library directly.
    let bytes = schema_ipc(&schema).unwrap();
    let reader = FileReader::try_new(std::io::Cursor::new(&bytes[..]), None).unwrap();
    assert_eq!(*reader.schema(), schema);
    // Read through the library what the interchange library wrote.
    let bytes2 = container_bytes(&schema, &[]);
    let got = read_ipc_schema(&bytes2).unwrap();
    assert_eq!(got, schema);
}

#[test]
fn batch_container_round_trips_losslessly() {
    let schema = sample_schema();
    let batch = sample_batch(&schema);
    let bytes = container_bytes(&schema, &[batch.clone()]);
    match ingest_ipc(&bytes).unwrap() {
        IpcIngest::Add(batches, total) => {
            assert_eq!(total, 3);
            // Content equality includes values and nulls per field
            // per row.
            assert_eq!(batches[0].raw, batch);
        }
        IpcIngest::Empty => panic!("expected a batch"),
    }
}

#[test]
fn bad_schema_bytes_are_an_invalid_schema() {
    let env = read_ipc_schema(&vec![9, 9, 9]).unwrap_err();
    assert!(!env.success);
    let msg = env.message.unwrap();
    assert!(msg.starts_with("Invalid IPC schema: "), "{}", msg);
}

#[test]
fn write_json_spells_every_shape_compactly() {
    let doc = obj(vec![
        ("a", JsonValue::Num(NumLit::Int(-3))),
        ("arr", JsonValue::Arr(vec![
            JsonValue::Null,
            JsonValue::Bool(true),
            JsonValue::Num(NumLit::UInt(18446744073709551615)),
        ])),
        ("f", JsonValue::Num(NumLit::Dec("0.5".to_string()))),
        ("s", JsonValue::Str("hi".to_string())),
    ]);
    assert_eq!(
        write_json(&doc),
        "{\"a\":-3,\"arr\":[null,true,18446744073709551615],\"f\":0.5,\"s\":\"hi\"}"
    );
    assert_eq!(write_json(&JsonValue::Arr(vec![])), "[]");
    assert_eq!(write_json(&obj(vec![])), "{}");
}

#[test]
fn write_json_escapes_as_the_json_library_does() {
    let tricky = "q\"b\\n\nr\rt\tc\u{1f}\u{8}\u{c}ok";
    let doc = JsonValue::Str(tricky.to_string());
    let expected = serde_json::to_string(&serde_json::Value::String(tricky.to_string())).unwrap();
    assert_eq!(write_json(&doc), expected);
}

#[test]
fn write_and_parse_json_round_trip() {
    let text = "{\"a\":[1,2.5,null],\"b\":{\"c\":\"x\"}}";
    let doc = parse_json(text).unwrap();
    assert_eq!(write_json(&doc), text);
    let doc2 = parse_json(&write_json(&doc)).unwrap();
    assert_eq!(doc, doc2);
}
