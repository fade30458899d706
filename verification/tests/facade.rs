//! The per-operation decision logic: envelopes, connection options,
//! updates, query plans, index requests and metadata rendering.
use simple_lancedb::connection::s3_env_assignments;
use simple_lancedb::data::{doc_to_rows, update_assignments, UNKNOWN_COUNT};
use simple_lancedb::envelope::Envelope;
use simple_lancedb::index::{
    plan_create_index, render_index_list, render_index_stats, IndexInfo, IndexKind, IndexRequest,
    IndexStats,
};
use simple_lancedb::json::{JsonValue, NumLit};
use simple_lancedb::metadata::{
    count_to_wire, render_optimize_stats, schema_to_json, version_to_wire, CompactionStats,
    OptimizeStats, PruneStats,
};
use simple_lancedb::query::{encode_result_rows, plan_query, PlainQuery, QueryPlan, VectorQuery};
use simple_lancedb::batch::{Batch, Cell};
use simple_lancedb::schema::{parse_schema, ElemType, Field, LogicalType, TableSchema};

fn obj(entries: Vec<(&str, JsonValue)>) -> JsonValue {
    JsonValue::Obj(entries.into_iter().map(|(k, v)| (k.to_string(), v)).collect())
}

fn jnum(v: i64) -> JsonValue {
    JsonValue::Num(NumLit::Int(v))
}

fn s(text: &str) -> JsonValue {
    JsonValue::Str(text.to_string())
}

#[test]
fn envelope_ok_and_error_keep_the_invariant() {
    let ok = Envelope::ok();
    assert!(ok.success);
    assert_eq!(ok.message, None);
    let err = Envelope::error("boom".to_string());
    assert!(!err.success);
    assert_eq!(err.message, Some("boom".to_string()));
}

#[test]
fn error_with_nul_degrades_to_the_sentinel() {
    let err = Envelope::error("bad\0message".to_string());
    assert_eq!(err.message, Some("Invalid error message".to_string()));
}

#[test]
fn fault_names_the_operation() {
    let env = Envelope::fault("simple_lancedb_connect");
    assert!(!env.success);
    assert_eq!(env.message, Some("Fault in simple_lancedb_connect".to_string()));
}

#[test]
fn s3_options_become_environment_assignments() {
    let options = obj(vec![(
        "s3_config",
        obj(vec![
            ("access_key_id", s("AK")),
            ("secret_access_key", s("SK")),
            ("session_token", s("ST")),
            ("region", s("eu-north-1")),
            ("profile", s("dev")),
        ]),
    )]);
    let assigns = s3_env_assignments(&options);
    assert_eq!(
        assigns,
        vec![
            ("AWS_ACCESS_KEY_ID".to_string(), "AK".to_string()),
            ("AWS_SECRET_ACCESS_KEY".to_string(), "SK".to_string()),
            ("AWS_SESSION_TOKEN".to_string(), "ST".to_string()),
            ("AWS_REGION".to_string(), "eu-north-1".to_string()),
            ("AWS_DEFAULT_REGION".to_string(), "eu-north-1".to_string()),
            ("AWS_PROFILE".to_string(), "dev".to_string()),
        ]
    );
}

#[test]
fn s3_options_skip_missing_and_non_string_keys() {
    let options = obj(vec![(
        "s3_config",
        obj(vec![("region", s("us-east-1")), ("access_key_id", jnum(5))]),
    )]);
    let assigns = s3_env_assignments(&options);
    assert_eq!(
        assigns,
        vec![
            ("AWS_REGION".to_string(), "us-east-1".to_string()),
            ("AWS_DEFAULT_REGION".to_string(), "us-east-1".to_string()),
        ]
    );
    assert_eq!(s3_env_assignments(&obj(vec![])), vec![]);
}

#[test]
fn update_literals_quote_strings_and_pass_the_rest() {
    let doc = obj(vec![
        ("name", s("ada")),
        ("age", jnum(36)),
        ("rate", JsonValue::Num(NumLit::Dec("0.5".to_string()))),
        ("live", JsonValue::Bool(true)),
        ("note", JsonValue::Null),
    ]);
    let pairs = update_assignments(&doc).unwrap();
    assert_eq!(
        pairs,
        vec![
            ("name".to_string(), "'ada'".to_string()),
            ("age".to_string(), "36".to_string()),
            ("rate".to_string(), "0.5".to_string()),
            ("live".to_string(), "true".to_string()),
            ("note".to_string(), "NULL".to_string()),
        ]
    );
}

#[test]
fn update_rejects_structured_values_naming_the_column() {
    let doc = obj(vec![("a", jnum(1)), ("b", JsonValue::Arr(vec![]))]);
    let env = update_assignments(&doc).unwrap_err();
    assert!(!env.success);
    assert_eq!(
        env.message,
        Some("Unsupported update value type for column b".to_string())
    );
}

#[test]
fn update_rejects_non_object_documents() {
    let env = update_assignments(&jnum(5)).unwrap_err();
    assert!(!env.success);
    assert_eq!(
        env.message,
        Some("Failed to parse updates JSON: expected an object of column values".to_string())
    );
}

#[test]
fn delete_reports_the_documented_sentinel() {
    assert_eq!(UNKNOWN_COUNT, -1);
}

#[test]
fn insert_documents_become_row_lists() {
    let rows = doc_to_rows(JsonValue::Arr(vec![jnum(1), jnum(2)]));
    assert_eq!(rows, vec![jnum(1), jnum(2)]);
    let single = doc_to_rows(obj(vec![("id", jnum(1))]));
    assert_eq!(single, vec![obj(vec![("id", jnum(1))])]);
    assert_eq!(doc_to_rows(JsonValue::Arr(vec![])), Vec::<JsonValue>::new());
}

#[test]
fn vector_search_config_selects_a_vector_plan() {
    let config = obj(vec![
        (
            "vector_search",
            obj(vec![
                ("column", s("v")),
                ("vector", JsonValue::Arr(vec![jnum(1), jnum(2)])),
                ("k", jnum(5)),
            ]),
        ),
        ("where", s("id > 0")),
        ("columns", JsonValue::Arr(vec![s("id"), jnum(9), s("v")])),
    ]);
    let plan = plan_query(&config).unwrap();
    assert_eq!(
        plan,
        QueryPlan::Vector(VectorQuery {
            column: "v".to_string(),
            vector: vec![NumLit::Int(1), NumLit::Int(2)],
            k: 5,
            limit: 5,
            filter: Some("id > 0".to_string()),
            columns: Some(vec!["id".to_string(), "v".to_string()]),
        })
    );
}

#[test]
fn explicit_limit_overrides_k() {
    let config = obj(vec![
        (
            "vector_search",
            obj(vec![
                ("column", s("v")),
                ("vector", JsonValue::Arr(vec![jnum(1)])),
                ("k", jnum(5)),
            ]),
        ),
        ("limit", jnum(3)),
    ]);
    match plan_query(&config).unwrap() {
        QueryPlan::Vector(v) => assert_eq!(v.limit, 3),
        other => panic!("expected a vector plan, got {:?}", other),
    }
}

#[test]
fn malformed_vector_search_falls_through_to_a_plain_scan() {
    let config = obj(vec![
        ("vector_search", obj(vec![("column", s("v"))])),
        ("limit", jnum(10)),
    ]);
    let plan = plan_query(&config).unwrap();
    assert_eq!(
        plan,
        QueryPlan::Plain(PlainQuery {
            columns: None,
            limit: Some(10),
            offset: None,
            filter: None,
        })
    );
}

#[test]
fn bad_vector_element_is_rejected() {
    let config = obj(vec![(
        "vector_search",
        obj(vec![
            ("column", s("v")),
            ("vector", JsonValue::Arr(vec![jnum(1), s("x")])),
            ("k", jnum(1)),
        ]),
    )]);
    let env = plan_query(&config).unwrap_err();
    assert_eq!(
        env.message,
        Some("Failed to execute query: Failed to parse vector: Invalid vector element".to_string())
    );
}

#[test]
fn full_text_search_is_rejected_as_unsupported() {
    let config = obj(vec![(
        "fts_search",
        obj(vec![("column", s("body")), ("query", s("needle"))]),
    )]);
    let env = plan_query(&config).unwrap_err();
    assert_eq!(
        env.message,
        Some("Failed to execute query: Full-text search is not currently supported".to_string())
    );
}

#[test]
fn plain_scan_takes_projection_limit_offset_and_filter() {
    let config = obj(vec![
        ("columns", JsonValue::Arr(vec![s("a"), s("b")])),
        ("limit", jnum(7)),
        ("offset", jnum(2)),
        ("where", s("a = 1")),
    ]);
    let plan = plan_query(&config).unwrap();
    assert_eq!(
        plan,
        QueryPlan::Plain(PlainQuery {
            columns: Some(vec!["a".to_string(), "b".to_string()]),
            limit: Some(7),
            offset: Some(2),
            filter: Some("a = 1".to_string()),
        })
    );
}

#[test]
fn empty_projection_means_no_selection() {
    let config = obj(vec![("columns", JsonValue::Arr(vec![jnum(1)]))]);
    let plan = plan_query(&config).unwrap();
    assert_eq!(
        plan,
        QueryPlan::Plain(PlainQuery { columns: None, limit: None, offset: None, filter: None })
    );
}

#[test]
fn index_type_tags_select_their_families() {
    let cols = JsonValue::Arr(vec![s("v")]);
    for (tag, kind) in [
        ("vector", IndexKind::IvfPq),
        ("ivf_pq", IndexKind::IvfPq),
        ("ivf_flat", IndexKind::IvfFlat),
        ("hnsw_pq", IndexKind::IvfHnswPq),
        ("hnsw_sq", IndexKind::IvfHnswSq),
        ("btree", IndexKind::BTree),
        ("bitmap", IndexKind::Bitmap),
        ("label_list", IndexKind::LabelList),
        ("fts", IndexKind::Fts),
    ] {
        let req = plan_create_index(&cols, tag, None).unwrap();
        assert_eq!(
            req,
            IndexRequest { columns: vec!["v".to_string()], kind, name: None }
        );
    }
}

#[test]
fn unsupported_index_type_is_rejected_with_its_tag() {
    let cols = JsonValue::Arr(vec![s("v")]);
    let env = plan_create_index(&cols, "kd_tree", None).unwrap_err();
    assert_eq!(env.message, Some("Unsupported index type: kd_tree".to_string()));
}

#[test]
fn index_columns_must_be_an_array_of_strings() {
    let env = plan_create_index(&JsonValue::Arr(vec![jnum(1)]), "btree", None).unwrap_err();
    assert_eq!(
        env.message,
        Some("Failed to parse columns JSON: expected an array of strings".to_string())
    );
    let env = plan_create_index(&s("v"), "btree", None).unwrap_err();
    assert!(!env.success);
}

#[test]
fn index_listing_renders_sorted_keys() {
    let infos = vec![IndexInfo {
        name: "v_idx".to_string(),
        columns: vec!["v".to_string()],
        kind_tag: "IvfPq".to_string(),
    }];
    let doc = render_index_list(&infos);
    assert_eq!(
        doc,
        JsonValue::Arr(vec![obj(vec![
            ("columns", JsonValue::Arr(vec![s("v")])),
            ("index_type", s("IvfPq")),
            ("name", s("v_idx")),
        ])])
    );
}

#[test]
fn index_stats_render_with_nulls_for_absent_parts() {
    let stats = IndexStats {
        num_indexed_rows: 10,
        num_unindexed_rows: 2,
        index_type_tag: "IvfPq".to_string(),
        distance_type: Some("l2".to_string()),
        num_indices: None,
        loss: Some(NumLit::Dec("0.125".to_string())),
    };
    let doc = render_index_stats(&stats);
    assert_eq!(
        doc,
        obj(vec![
            ("distance_type", s("l2")),
            ("index_type", s("IvfPq")),
            ("loss", JsonValue::Num(NumLit::Dec("0.125".to_string()))),
            ("num_indexed_rows", jnum(10)),
            ("num_indices", JsonValue::Null),
            ("num_unindexed_rows", jnum(2)),
        ])
    );
}

#[test]
fn schema_reports_spell_known_types_and_unknown_for_the_rest() {
    let schema = TableSchema {
        fields: vec![
            Field { name: "id".to_string(), dtype: LogicalType::Int32, nullable: false },
            Field {
                name: "v".to_string(),
                dtype: LogicalType::FixedSizeList(ElemType::Float32, 4),
                nullable: true,
            },
            Field { name: "tiny".to_string(), dtype: LogicalType::Int8, nullable: true },
            Field {
                name: "w".to_string(),
                dtype: LogicalType::FixedSizeList(ElemType::Int16, 2),
                nullable: true,
            },
        ],
    };
    let doc = schema_to_json(&schema);
    assert_eq!(
        doc,
        obj(vec![(
            "fields",
            JsonValue::Arr(vec![
                obj(vec![
                    ("name", s("id")),
                    ("nullable", JsonValue::Bool(false)),
                    ("type", s("int32")),
                ]),
                obj(vec![
                    ("name", s("v")),
                    ("nullable", JsonValue::Bool(true)),
                    ("type", s("fixed_size_list[float32;4]")),
                ]),
                obj(vec![
                    ("name", s("tiny")),
                    ("nullable", JsonValue::Bool(true)),
                    ("type", s("unknown")),
                ]),
                obj(vec![
                    ("name", s("w")),
                    ("nullable", JsonValue::Bool(true)),
                    ("type", s("unknown")),
                ]),
            ])
        )])
    );
}

#[test]
fn counts_and_versions_cross_as_signed() {
    assert_eq!(count_to_wire(0), 0);
    assert_eq!(count_to_wire(12345), 12345);
    assert_eq!(version_to_wire(3), 3);
}

#[test]
fn optimize_stats_render_only_the_passes_that_ran() {
    let full = OptimizeStats {
        compaction: Some(CompactionStats {
            fragments_removed: 4,
            fragments_added: 1,
            files_removed: 8,
            files_added: 2,
        }),
        prune: Some(PruneStats { bytes_removed: 1024, old_versions: 3 }),
    };
    assert_eq!(
        render_optimize_stats(&full),
        obj(vec![
            (
                "compaction",
                obj(vec![
                    ("files_added", jnum(2)),
                    ("files_removed", jnum(8)),
                    ("fragments_added", jnum(1)),
                    ("fragments_removed", jnum(4)),
                ])
            ),
            (
                "prune",
                obj(vec![("bytes_removed", jnum(1024)), ("old_versions", jnum(3))])
            ),
        ])
    );
    let none = OptimizeStats { compaction: None, prune: None };
    assert_eq!(render_optimize_stats(&none), obj(vec![]));
}

#[test]
fn schema_report_parses_back_for_reported_types() {
    let schema = TableSchema {
        fields: vec![
            Field { name: "id".to_string(), dtype: LogicalType::Int32, nullable: false },
            Field {
                name: "v".to_string(),
                dtype: LogicalType::FixedSizeList(ElemType::Float32, 4),
                nullable: true,
            },
            Field { name: "b".to_string(), dtype: LogicalType::Binary, nullable: true },
        ],
    };
    let doc = schema_to_json(&schema);
    assert_eq!(parse_schema(&doc).unwrap(), schema);
}

#[test]
fn query_results_concatenate_batches_row_by_row() {
    let schema = TableSchema {
        fields: vec![Field { name: "id".to_string(), dtype: LogicalType::Int32, nullable: false }],
    };
    let b1 = Batch { schema: schema.clone(), cols: vec![vec![Cell::I32(1), Cell::I32(2)]], nrows: 2 };
    let b2 = Batch { schema, cols: vec![vec![Cell::I32(3)]], nrows: 1 };
    let rows = encode_result_rows(&vec![b1, b2]);
    assert_eq!(
        rows,
        vec![
            obj(vec![("id", jnum(1))]),
            obj(vec![("id", jnum(2))]),
            obj(vec![("id", jnum(3))]),
        ]
    );
    assert_eq!(encode_result_rows(&vec![]), Vec::<JsonValue>::new());
}

#[test]
fn non_object_vector_search_entry_falls_through() {
    let config = obj(vec![("vector_search", s("not an object")), ("limit", jnum(4))]);
    let plan = plan_query(&config).unwrap();
    assert_eq!(
        plan,
        QueryPlan::Plain(PlainQuery { columns: None, limit: Some(4), offset: None, filter: None })
    );
}

#[test]
fn empty_update_object_yields_no_assignments() {
    let pairs = update_assignments(&obj(vec![])).unwrap();
    assert_eq!(pairs, Vec::<(String, String)>::new());
}
