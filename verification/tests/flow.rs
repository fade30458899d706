//! Whole boundary flows, driven as the foreign shell drives them:
//! wire text in, decisions and marshalling through the library, wire
//! values back out.  The engine itself stays out of scope; what it
//! would be handed and what its results become are checked exactly.
use simple_lancedb::batch::{Batch, Cell};
use simple_lancedb::codec::encode_rows;
use simple_lancedb::data::{build_insert, doc_to_rows, update_assignments, UNKNOWN_COUNT};
use simple_lancedb::json::{JsonValue, NumLit};
use simple_lancedb::metadata::count_to_wire;
use simple_lancedb::query::{encode_result_rows, plan_query, QueryPlan};
use simple_lancedb::schema::{create_table_schema, ElemType, LogicalType};
use simple_lancedb::wire::parse_json;

#[test]
fn create_insert_count_and_query_round() {
    // Create: the schema description crosses as JSON text.
    let schema_doc = parse_json(
        "{\"fields\":[{\"name\":\"id\",\"type\":\"int32\",\"nullable\":false},\
         {\"name\":\"v\",\"type\":\"fixed_size_list[float32;4]\",\"nullable\":false}]}",
    )
    .unwrap();
    let schema = create_table_schema(&schema_doc).unwrap();
    assert_eq!(schema.fields.len(), 2);
    assert_eq!(
        schema.fields[1].dtype,
        LogicalType::FixedSizeList(ElemType::Float32, 4)
    );

    // Insert: one row, decoded strictly into a columnar batch.
    let rows_doc = parse_json("[{\"id\":1,\"v\":[0.1,0.2,0.3,0.4]}]").unwrap();
    let rows = doc_to_rows(rows_doc);
    let (batch, added) = build_insert(&schema, &rows).unwrap();
    assert_eq!(added, 1);
    assert_eq!(batch.num_rows(), 1);
    assert_eq!(batch.cols[0], vec![Cell::I32(1)]);

    // Count: the engine would report one row.
    assert_eq!(count_to_wire(batch.num_rows()), 1);

    // Query: k = 1 nearest-neighbor over the vector column.
    let config = parse_json(
        "{\"vector_search\":{\"column\":\"v\",\"vector\":[0.1,0.2,0.3,0.4],\"k\":1}}",
    )
    .unwrap();
    let plan = plan_query(&config).unwrap();
    match plan {
        QueryPlan::Vector(v) => {
            assert_eq!(v.column, "v");
            assert_eq!(v.k, 1);
            assert_eq!(v.limit, 1);
            assert_eq!(v.vector.len(), 4);
        }
        other => panic!("expected a vector plan, got {:?}", other),
    }

    // The engine's single-row result encodes back to one row object
    // with id = 1.
    let result_rows = encode_result_rows(&vec![batch]);
    assert_eq!(result_rows.len(), 1);
    match &result_rows[0] {
        JsonValue::Obj(entries) => {
            assert_eq!(
                entries[0],
                ("id".to_string(), JsonValue::Num(NumLit::Int(1)))
            );
        }
        other => panic!("expected a row object, got {:?}", other),
    }
}

#[test]
fn update_then_delete_plans() {
    // Update with predicate "id = 1" and updates {"id": 2}.
    let updates_doc = parse_json("{\"id\": 2}").unwrap();
    let assignments = update_assignments(&updates_doc).unwrap();
    assert_eq!(assignments, vec![("id".to_string(), "2".to_string())]);

    // Delete with predicate "id = 2": success reports the sentinel,
    // and an emptied table counts zero.
    assert_eq!(UNKNOWN_COUNT, -1);
    let empty = Batch {
        schema: create_table_schema(
            &parse_json("{\"fields\":[{\"name\":\"id\",\"type\":\"int32\"}]}").unwrap(),
        )
        .unwrap(),
        cols: vec![vec![]],
        nrows: 0,
    };
    assert_eq!(count_to_wire(empty.num_rows()), 0);
    assert_eq!(encode_rows(&empty), Vec::<JsonValue>::new());
}

#[test]
fn decode_failures_never_reach_the_engine_step() {
    let schema_doc =
        parse_json("{\"fields\":[{\"name\":\"x\",\"type\":\"int32\",\"nullable\":false}]}")
            .unwrap();
    let schema = create_table_schema(&schema_doc).unwrap();
    let rows = doc_to_rows(parse_json("[{\"x\": 99999999999}]").unwrap());
    let env = build_insert(&schema, &rows).unwrap_err();
    assert!(!env.success);
    assert_eq!(
        env.message,
        Some(
            "Failed to convert JSON to RecordBatch: Number 99999999999 out of range for i32 in field x"
                .to_string()
        )
    );
}
