//! Metadata-side decisions: rendering a schema back into its JSON
//! description, converting counts for the wire, and rendering the
//! statistics an optimize run reports.
use vstd::prelude::*;
use vstd::string::StringExecFns;
use crate::json::{
    jview, jview_seq, lemma_jview_entries, lemma_jview_seq, num_of_u64,
    num_of_u64_spec, JsonV, JsonValue,
};
use crate::schema::{ElemType, Field, FieldV, LogicalType, TableSchema, TableSchemaV};
use crate::text::{int_str, i32_to_string};

verus! {

/// The wire name a schema report spells a type with.  Only the types
/// the report knows get their name; everything else — the narrow
/// integers, the half float, and any fixed-size list that is not of
/// 32-bit floats — reports as `"unknown"`.
pub open spec fn wire_type_label(t: LogicalType) -> Seq<char> {
    match t {
        LogicalType::Int32 => "int32"@,
        LogicalType::Int64 => "int64"@,
        LogicalType::Float32 => "float32"@,
        LogicalType::Float64 => "float64"@,
        LogicalType::Utf8 => "string"@,
        LogicalType::Binary => "binary"@,
        LogicalType::Boolean => "boolean"@,
        LogicalType::FixedSizeList(e, d) => if e == ElemType::Float32 {
            "fixed_size_list[float32;"@ + int_str(d as int) + "]"@
        } else {
            "unknown"@
        },
        _ => "unknown"@,
    }
}

/// Render the wire name of a type for a schema report.
pub fn render_wire_type_label(t: LogicalType) -> (r: String)
    ensures
        r@ == wire_type_label(t),
{
    match t {
        LogicalType::Int32 => String::from_str("int32"),
        LogicalType::Int64 => String::from_str("int64"),
        LogicalType::Float32 => String::from_str("float32"),
        LogicalType::Float64 => String::from_str("float64"),
        LogicalType::Utf8 => String::from_str("string"),
        LogicalType::Binary => String::from_str("binary"),
        LogicalType::Boolean => String::from_str("boolean"),
        LogicalType::FixedSizeList(e, d) => match e {
            ElemType::Float32 => {
                let r = String::from_str("fixed_size_list[float32;").concat(
                    i32_to_string(d).as_str(),
                ).concat("]");
                proof {
                    assert(r@ =~= wire_type_label(t));
                }
                r
            },
            _ => String::from_str("unknown"),
        },
        _ => String::from_str("unknown"),
    }
}

/// The JSON description of one field in a schema report.
pub open spec fn field_json(f: FieldV) -> JsonV {
    JsonV::Obj(
        seq![
            ("name"@, JsonV::Str(f.name)),
            ("nullable"@, JsonV::Bool(f.nullable)),
            ("type"@, JsonV::Str(wire_type_label(f.dtype))),
        ],
    )
}

/// The JSON description of a whole schema: a `"fields"` array.
pub open spec fn schema_json(s: TableSchemaV) -> JsonV {
    JsonV::Obj(
        seq![("fields"@, JsonV::Arr(Seq::new(s.fields.len(), |j: int| field_json(s.fields[j]))))],
    )
}

/// Render one field's JSON description.
fn render_field(f: &Field) -> (out: JsonValue)
    ensures
        jview(out) == field_json(f.deep_view()),
{
    let mut entries: Vec<(String, JsonValue)> = Vec::new();
    entries.push((String::from_str("name"), JsonValue::Str(f.name.clone())));
    entries.push((String::from_str("nullable"), JsonValue::Bool(f.nullable)));
    entries.push((String::from_str("type"), JsonValue::Str(render_wire_type_label(f.dtype))));
    let out = JsonValue::Obj(entries);
    proof {
        lemma_jview_entries(entries@);
        assert(jview(out)->Obj_0 =~= field_json(f.deep_view())->Obj_0);
    }
    out
}

/// Render a schema into the JSON description a schema report hands
/// back.
pub fn schema_to_json(s: &TableSchema) -> (out: JsonValue)
    ensures
        jview(out) == schema_json(s.deep_view()),
{
    let ghost sv = s.deep_view();
    let n = s.fields.len();
    let mut items: Vec<JsonValue> = Vec::new();
    let mut j: usize = 0;
    while j < n
        invariant
            n == s.fields@.len(),
            j <= n,
            sv == s.deep_view(),
            sv.fields.len() == n,
            forall|m: int| 0 <= m < n ==> #[trigger] sv.fields[m] == s.fields@[m].deep_view(),
            items@.len() == j,
            forall|m: int| 0 <= m < j ==> jview(#[trigger] items@[m]) == field_json(sv.fields[m]),
        decreases n - j,
    {
        let item = render_field(&s.fields[j]);
        items.push(item);
        j += 1;
    }
    let mut entries: Vec<(String, JsonValue)> = Vec::new();
    entries.push((String::from_str("fields"), JsonValue::Arr(items)));
    let out = JsonValue::Obj(entries);
    proof {
        lemma_jview_entries(entries@);
        lemma_jview_seq(entries@[0].1->Arr_0@);
        assert(jview_seq(entries@[0].1->Arr_0@) =~= schema_json(sv)->Obj_0[0].1->Arr_0);
        assert(jview(out)->Obj_0 =~= schema_json(sv)->Obj_0);
    }
    out
}

/// The types a schema report spells exactly, rather than as
/// `"unknown"`.
pub open spec fn reported_exactly(t: LogicalType) -> bool {
    match t {
        LogicalType::Int32 => true,
        LogicalType::Int64 => true,
        LogicalType::Float32 => true,
        LogicalType::Float64 => true,
        LogicalType::Utf8 => true,
        LogicalType::Binary => true,
        LogicalType::Boolean => true,
        LogicalType::FixedSizeList(e, _) => e == ElemType::Float32,
        _ => false,
    }
}

/// A reported type name reads back as the type it spells.
proof fn lemma_wire_label_parses(t: LogicalType)
    requires
        reported_exactly(t),
    ensures
        crate::schema::parse_type_spec(wire_type_label(t)) == Ok::<
            LogicalType,
            crate::schema::SchemaErrV,
        >(t),
{
    reveal_strlit("int8");
    reveal_strlit("int16");
    reveal_strlit("int32");
    reveal_strlit("int64");
    reveal_strlit("float16");
    reveal_strlit("float32");
    reveal_strlit("float64");
    reveal_strlit("string");
    reveal_strlit("binary");
    reveal_strlit("boolean");
    reveal_strlit("fixed_size_list[int8;");
    reveal_strlit("fixed_size_list[int16;");
    reveal_strlit("fixed_size_list[int32;");
    reveal_strlit("fixed_size_list[int64;");
    reveal_strlit("fixed_size_list[float16;");
    reveal_strlit("fixed_size_list[float32;");
    reveal_strlit("fixed_size_list[float64;");
    match t {
        LogicalType::FixedSizeList(_, d) => {
            lemma_fsl_label_parses(d);
        },
        _ => {},
    }
}

/// The fixed-size-list label of 32-bit floats reads back with its
/// dimension.
proof fn lemma_fsl_label_parses(d: i32)
    ensures
        crate::schema::parse_type_spec(
            wire_type_label(LogicalType::FixedSizeList(ElemType::Float32, d)),
        ) == Ok::<LogicalType, crate::schema::SchemaErrV>(
            LogicalType::FixedSizeList(ElemType::Float32, d),
        ),
{
    reveal_strlit("int8");
    reveal_strlit("int16");
    reveal_strlit("int32");
    reveal_strlit("int64");
    reveal_strlit("float16");
    reveal_strlit("float32");
    reveal_strlit("float64");
    reveal_strlit("string");
    reveal_strlit("binary");
    reveal_strlit("boolean");
    reveal_strlit("fixed_size_list[int8;");
    reveal_strlit("fixed_size_list[int16;");
    reveal_strlit("fixed_size_list[int32;");
    reveal_strlit("fixed_size_list[int64;");
    reveal_strlit("fixed_size_list[float16;");
    reveal_strlit("fixed_size_list[float32;");
    reveal_strlit("fixed_size_list[float64;");
    reveal_strlit("]");
    let p = "fixed_size_list[float32;"@;
    let mag: nat = if d >= 0 {
        d as nat
    } else {
        (-d) as nat
    };
    crate::text::lemma_dec_str_digits(mag);
    crate::text::lemma_dec_str_val(mag);
    let num = int_str(d as int);
    let label = wire_type_label(LogicalType::FixedSizeList(ElemType::Float32, d));
    assert(label == p + num + "]"@);
    assert(num.len() >= 1);
    assert(num[0] == '-' || crate::text::is_digit(num[0]));
    // The label is no scalar name and starts with no other list
    // prefix: it differs in length or in one character.
    assert(label.len() >= 26);
    assert(label[16] == p[16]);
    assert(label[21] == p[21]);
    assert(crate::text::starts_with(label, p)) by {
        assert(label.subrange(0, 24) =~= p);
    }
    // Stripping the prefix leaves the dimension text and bracket, and
    // that remainder carries the prefix no further.
    let rest = label.skip(24);
    assert(rest =~= num + "]"@);
    assert(rest[0] != 'f');
    assert(!crate::text::starts_with(rest, p)) by {
        if crate::text::starts_with(rest, p) {
            assert(rest.subrange(0, 24)[0] == rest[0]);
        }
    }
    assert(crate::text::strip_prefix_rep_spec(label, p) == crate::text::strip_prefix_rep_spec(
        label.skip(p.len() as int),
        p,
    ));
    assert(label.skip(p.len() as int) == rest);
    assert(crate::text::strip_prefix_rep_spec(rest, p) == rest);
    // Trailing brackets strip down to the dimension text alone.
    assert(rest.last() == ']');
    assert(rest.drop_last() =~= num);
    assert(num.last() != ']') by {
        assert(crate::text::is_digit(num[num.len() - 1]));
    }
    assert(crate::text::strip_trailing_spec(rest, ']') == crate::text::strip_trailing_spec(
        rest.drop_last(),
        ']',
    ));
    assert(rest.drop_last() == num);
    assert(crate::text::strip_trailing_spec(num, ']') == num);
    // The dimension text reads back as the dimension.
    assert(crate::text::parse_i32_spec(num) == Some(d)) by {
        if d >= 0 {
            assert(num == crate::text::dec_str(mag));
            assert(crate::text::is_digit(num[0]));
            assert(num[0] != '+' && num[0] != '-');
        } else {
            assert(num == seq!['-'] + crate::text::dec_str(mag));
            assert(num[0] == '-');
            assert(num.drop_first() =~= crate::text::dec_str(mag));
        }
    }
}

/// A prefix of fields all reading back leaves the rest.
proof fn lemma_parse_fields_pointwise(vs: Seq<JsonV>, fs: Seq<crate::schema::FieldV>)
    requires
        fs.len() == vs.len(),
        forall|j: int| 0 <= j < vs.len() ==> crate::schema::parse_field_spec(#[trigger] vs[j])
            == Ok::<crate::schema::FieldV, crate::schema::SchemaErrV>(fs[j]),
    ensures
        crate::schema::parse_fields_spec(vs) == Ok::<
            Seq<crate::schema::FieldV>,
            crate::schema::SchemaErrV,
        >(fs),
    decreases vs.len(),
{
    if vs.len() > 0 {
        assert(forall|j: int|
            0 <= j < vs.len() - 1 ==> (#[trigger] vs.drop_first()[j]) == vs[j + 1]);
        lemma_parse_fields_pointwise(vs.drop_first(), fs.drop_first());
        assert(seq![fs[0]] + fs.drop_first() =~= fs);
    } else {
        assert(fs =~= Seq::<crate::schema::FieldV>::empty());
    }
}

/// A schema whose types the report spells exactly reads back from
/// its own report unchanged.
pub proof fn lemma_schema_report_reads_back(s: TableSchemaV)
    requires
        forall|j: int|
            0 <= j < s.fields.len() ==> reported_exactly((#[trigger] s.fields[j]).dtype),
    ensures
        crate::schema::parse_schema_spec(schema_json(s)) == Ok::<
            TableSchemaV,
            crate::schema::SchemaErrV,
        >(s),
{
    reveal_strlit("fields");
    reveal_strlit("name");
    reveal_strlit("nullable");
    reveal_strlit("type");
    let doc = schema_json(s);
    let items = doc->Obj_0[0].1->Arr_0;
    assert(crate::json::lookup(doc, "fields"@) == Some(doc->Obj_0[0].1));
    assert forall|j: int| 0 <= j < items.len() implies crate::schema::parse_field_spec(
        #[trigger] items[j],
    ) == Ok::<crate::schema::FieldV, crate::schema::SchemaErrV>(s.fields[j]) by {
        let f = s.fields[j];
        let fdoc = field_json(f);
        let entries = fdoc->Obj_0;
        assert(crate::json::obj_lookup(entries, "name"@) == Some(entries[0].1));
        assert(crate::json::obj_lookup(entries, "nullable"@) == Some(entries[1].1)) by {
            reveal_strlit("name");
            reveal_strlit("nullable");
            assert("name"@.len() == 4 && "nullable"@.len() == 8);
            assert(entries[0].0 != "nullable"@);
            crate::json::lemma_obj_lookup_at(entries, 1);
        }
        assert(crate::json::obj_lookup(entries, "type"@) == Some(entries[2].1)) by {
            reveal_strlit("name");
            reveal_strlit("nullable");
            reveal_strlit("type");
            assert("name"@.len() == 4 && "nullable"@.len() == 8 && "type"@.len() == 4);
            assert("name"@[0] == 'n' && "type"@[0] == 't');
            assert(entries[0].0 != "type"@);
            assert(entries[1].0 != "type"@);
            crate::json::lemma_obj_lookup_at(entries, 2);
        }
        lemma_wire_label_parses(f.dtype);
    }
    lemma_parse_fields_pointwise(items, s.fields);
}

/// A row count as the wire reports it.
pub fn count_to_wire(n: usize) -> (r: i64)
    requires
        n <= i64::MAX,
    ensures
        r == n,
{
    n as i64
}

/// A table version as the wire reports it.
pub fn version_to_wire(v: u64) -> (r: i64)
    requires
        v <= i64::MAX,
    ensures
        r == v,
{
    v as i64
}

/// What a compaction pass reports.
#[derive(Clone, Copy, PartialEq, Debug)]
pub struct CompactionStats {
    pub fragments_removed: u64,
    pub fragments_added: u64,
    pub files_removed: u64,
    pub files_added: u64,
}

/// What a prune pass reports.
#[derive(Clone, Copy, PartialEq, Debug)]
pub struct PruneStats {
    pub bytes_removed: u64,
    pub old_versions: u64,
}

/// What an optimize run reports: each pass's statistics, where the
/// engine ran that pass.
#[derive(Clone, Copy, PartialEq, Debug)]
pub struct OptimizeStats {
    pub compaction: Option<CompactionStats>,
    pub prune: Option<PruneStats>,
}

/// The JSON document for a compaction pass.
pub open spec fn compaction_json(c: CompactionStats) -> JsonV {
    JsonV::Obj(
        seq![
            ("files_added"@, JsonV::Num(num_of_u64_spec(c.files_added))),
            ("files_removed"@, JsonV::Num(num_of_u64_spec(c.files_removed))),
            ("fragments_added"@, JsonV::Num(num_of_u64_spec(c.fragments_added))),
            ("fragments_removed"@, JsonV::Num(num_of_u64_spec(c.fragments_removed))),
        ],
    )
}

/// The JSON document for a prune pass.
pub open spec fn prune_json(p: PruneStats) -> JsonV {
    JsonV::Obj(
        seq![
            ("bytes_removed"@, JsonV::Num(num_of_u64_spec(p.bytes_removed))),
            ("old_versions"@, JsonV::Num(num_of_u64_spec(p.old_versions))),
        ],
    )
}

/// The JSON document for an optimize run: one entry per pass that
/// ran.
pub open spec fn optimize_stats_json(s: OptimizeStats) -> JsonV {
    JsonV::Obj(
        (match s.compaction {
            Some(c) => seq![("compaction"@, compaction_json(c))],
            None => Seq::empty(),
        }) + (match s.prune {
            Some(p) => seq![("prune"@, prune_json(p))],
            None => Seq::empty(),
        }),
    )
}

/// Render what an optimize run reports into its JSON document.
pub fn render_optimize_stats(s: &OptimizeStats) -> (out: JsonValue)
    ensures
        jview(out) == optimize_stats_json(*s),
{
    let mut entries: Vec<(String, JsonValue)> = Vec::new();
    if let Some(c) = &s.compaction {
        let mut ce: Vec<(String, JsonValue)> = Vec::new();
        ce.push((String::from_str("files_added"), JsonValue::Num(num_of_u64(c.files_added))));
        ce.push((String::from_str("files_removed"), JsonValue::Num(num_of_u64(c.files_removed))));
        ce.push((
            String::from_str("fragments_added"),
            JsonValue::Num(num_of_u64(c.fragments_added)),
        ));
        ce.push((
            String::from_str("fragments_removed"),
            JsonValue::Num(num_of_u64(c.fragments_removed)),
        ));
        let cobj = JsonValue::Obj(ce);
        proof {
            lemma_jview_entries(cobj->Obj_0@);
            assert(jview(cobj)->Obj_0 =~= compaction_json(*c)->Obj_0);
        }
        entries.push((String::from_str("compaction"), cobj));
    }
    if let Some(p) = &s.prune {
        let mut pe: Vec<(String, JsonValue)> = Vec::new();
        pe.push((String::from_str("bytes_removed"), JsonValue::Num(num_of_u64(p.bytes_removed))));
        pe.push((String::from_str("old_versions"), JsonValue::Num(num_of_u64(p.old_versions))));
        let pobj = JsonValue::Obj(pe);
        proof {
            lemma_jview_entries(pobj->Obj_0@);
            assert(jview(pobj)->Obj_0 =~= prune_json(*p)->Obj_0);
        }
        entries.push((String::from_str("prune"), pobj));
    }
    let out = JsonValue::Obj(entries);
    proof {
        lemma_jview_entries(entries@);
        assert(jview(out)->Obj_0 =~= optimize_stats_json(*s)->Obj_0);
    }
    out
}

} // verus!
