//! The typed column model: logical types, fields and schemas, and the
//! reading of a schema out of its JSON description.
//!
//! A schema names an ordered sequence of fields; each field carries a
//! logical type and a nullable flag.  The JSON form spells a type as a
//! name such as `"int32"` or `"fixed_size_list[float32;4]"`.
use vstd::prelude::*;
use vstd::string::StrSliceExecFns;
use vstd::string::StringExecFns;
use crate::json::{jview, jview_seq, lookup, jv_as_str, jv_as_bool, jv_as_arr, JsonV, JsonValue};
use crate::text::{
    i32_to_string, int_str, parse_i32, parse_i32_spec, str_eq, str_starts_with, starts_with,
    strip_prefix_rep, strip_prefix_rep_spec, strip_trailing_brackets, strip_trailing_spec,
};

verus! {

/// Element type of a fixed-size-list field: one of the numeric types.
#[derive(Clone, Copy, PartialEq, Eq, Debug, Structural)]
pub enum ElemType {
    Int8,
    Int16,
    Int32,
    Int64,
    Float16,
    Float32,
    Float64,
}

/// A field's logical type.  `Other` stands for a type outside the
/// supported set, seen only on schemas read back from the engine.
#[derive(Clone, Copy, PartialEq, Eq, Debug, Structural)]
pub enum LogicalType {
    Int8,
    Int16,
    Int32,
    Int64,
    Float16,
    Float32,
    Float64,
    Boolean,
    Utf8,
    Binary,
    FixedSizeList(ElemType, i32),
    Other,
}

/// One schema field: a name, a logical type, and whether a value may
/// be null.
#[derive(Clone, PartialEq, Debug)]
pub struct Field {
    pub name: String,
    pub dtype: LogicalType,
    pub nullable: bool,
}

/// Mathematical image of `Field`.
pub ghost struct FieldV {
    pub name: Seq<char>,
    pub dtype: LogicalType,
    pub nullable: bool,
}

impl DeepView for Field {
    type V = FieldV;

    open spec fn deep_view(&self) -> FieldV {
        FieldV { name: self.name@, dtype: self.dtype, nullable: self.nullable }
    }
}

impl Field {
    /// An equal copy of this field.
    pub fn dup(&self) -> (r: Field)
        ensures
            r.deep_view() == self.deep_view(),
    {
        Field { name: self.name.clone(), dtype: self.dtype, nullable: self.nullable }
    }
}

/// An ordered sequence of fields.
#[derive(Clone, PartialEq, Debug)]
pub struct TableSchema {
    pub fields: Vec<Field>,
}

impl TableSchema {
    /// An equal copy of this schema.
    pub fn dup(&self) -> (r: TableSchema)
        ensures
            r.deep_view() == self.deep_view(),
    {
        let n = self.fields.len();
        let mut fields: Vec<Field> = Vec::new();
        let mut i: usize = 0;
        while i < n
            invariant
                n == self.fields@.len(),
                i <= n,
                fields@.len() == i,
                forall|j: int|
                    0 <= j < i ==> (#[trigger] fields@[j]).deep_view()
                        == self.fields@[j].deep_view(),
            decreases n - i,
        {
            fields.push(self.fields[i].dup());
            i += 1;
        }
        let r = TableSchema { fields };
        proof {
            assert(r.deep_view().fields =~= self.deep_view().fields);
        }
        r
    }
}

/// Mathematical image of `TableSchema`.
pub ghost struct TableSchemaV {
    pub fields: Seq<FieldV>,
}

impl DeepView for TableSchema {
    type V = TableSchemaV;

    open spec fn deep_view(&self) -> TableSchemaV {
        TableSchemaV { fields: self.fields.deep_view() }
    }
}

impl TableSchemaV {
    /// Well-formedness: field names are unique within the schema.
    pub open spec fn wf(self) -> bool {
        forall|i: int, j: int|
            0 <= i < j < self.fields.len() ==> (#[trigger] self.fields[i]).name
                != (#[trigger] self.fields[j]).name
    }
}

/// Why a schema description was rejected, with what the message needs.
#[derive(Clone, PartialEq, Debug)]
pub enum SchemaError {
    /// The document has no `"fields"` array.
    NoFields,
    /// A field entry has no `"name"` string.
    NoName,
    /// A field entry has no `"type"` string.
    NoType,
    /// A fixed-size-list type spells a dimension that is not a 32-bit
    /// integer; carries the dimension text.
    BadDimension(String),
    /// A type name outside the supported set; carries the name.
    Unsupported(String),
}

/// Mathematical image of `SchemaError`.
pub ghost enum SchemaErrV {
    NoFields,
    NoName,
    NoType,
    BadDimension(Seq<char>),
    Unsupported(Seq<char>),
}

impl DeepView for SchemaError {
    type V = SchemaErrV;

    open spec fn deep_view(&self) -> SchemaErrV {
        match self {
            SchemaError::NoFields => SchemaErrV::NoFields,
            SchemaError::NoName => SchemaErrV::NoName,
            SchemaError::NoType => SchemaErrV::NoType,
            SchemaError::BadDimension(d) => SchemaErrV::BadDimension(d@),
            SchemaError::Unsupported(t) => SchemaErrV::Unsupported(t@),
        }
    }
}

/// The name of a fixed-size-list element type.
pub open spec fn elem_name(e: ElemType) -> Seq<char> {
    match e {
        ElemType::Int8 => "int8"@,
        ElemType::Int16 => "int16"@,
        ElemType::Int32 => "int32"@,
        ElemType::Int64 => "int64"@,
        ElemType::Float16 => "float16"@,
        ElemType::Float32 => "float32"@,
        ElemType::Float64 => "float64"@,
    }
}

/// The wire name of a logical type, as the JSON schema description
/// spells it.
pub open spec fn type_label(t: LogicalType) -> Seq<char> {
    match t {
        LogicalType::Int8 => "int8"@,
        LogicalType::Int16 => "int16"@,
        LogicalType::Int32 => "int32"@,
        LogicalType::Int64 => "int64"@,
        LogicalType::Float16 => "float16"@,
        LogicalType::Float32 => "float32"@,
        LogicalType::Float64 => "float64"@,
        LogicalType::Boolean => "boolean"@,
        LogicalType::Utf8 => "string"@,
        LogicalType::Binary => "binary"@,
        LogicalType::FixedSizeList(e, d) => "fixed_size_list["@ + elem_name(e) + ";"@ + int_str(
            d as int,
        ) + "]"@,
        LogicalType::Other => "unknown"@,
    }
}

/// Render an element type's name.
pub fn render_elem_name(e: ElemType) -> (r: &'static str)
    ensures
        r@ == elem_name(e),
{
    match e {
        ElemType::Int8 => "int8",
        ElemType::Int16 => "int16",
        ElemType::Int32 => "int32",
        ElemType::Int64 => "int64",
        ElemType::Float16 => "float16",
        ElemType::Float32 => "float32",
        ElemType::Float64 => "float64",
    }
}

/// Render a logical type's wire name.
pub fn render_type_label(t: LogicalType) -> (r: String)
    ensures
        r@ == type_label(t),
{
    match t {
        LogicalType::Int8 => String::from_str("int8"),
        LogicalType::Int16 => String::from_str("int16"),
        LogicalType::Int32 => String::from_str("int32"),
        LogicalType::Int64 => String::from_str("int64"),
        LogicalType::Float16 => String::from_str("float16"),
        LogicalType::Float32 => String::from_str("float32"),
        LogicalType::Float64 => String::from_str("float64"),
        LogicalType::Boolean => String::from_str("boolean"),
        LogicalType::Utf8 => String::from_str("string"),
        LogicalType::Binary => String::from_str("binary"),
        LogicalType::FixedSizeList(e, d) => {
            let r = String::from_str("fixed_size_list[").concat(render_elem_name(e)).concat(
                ";",
            ).concat(i32_to_string(d).as_str()).concat("]");
            proof {
                assert(r@ =~= type_label(t));
            }
            r
        },
        LogicalType::Other => String::from_str("unknown"),
    }
}

/// The human-readable message for a schema rejection.
pub open spec fn schema_err_msg(e: SchemaErrV) -> Seq<char> {
    match e {
        SchemaErrV::NoFields => "Schema JSON must have 'fields' array"@,
        SchemaErrV::NoName => "Field must have 'name' string"@,
        SchemaErrV::NoType => "Field must have 'type' string"@,
        SchemaErrV::BadDimension(d) => "Invalid vector dimension: "@ + d,
        SchemaErrV::Unsupported(t) => "Unsupported data type: "@ + t,
    }
}

impl SchemaError {
    /// The human-readable message for this rejection.
    pub fn message(&self) -> (r: String)
        ensures
            r@ == schema_err_msg(self.deep_view()),
    {
        match self {
            SchemaError::NoFields => String::from_str("Schema JSON must have 'fields' array"),
            SchemaError::NoName => String::from_str("Field must have 'name' string"),
            SchemaError::NoType => String::from_str("Field must have 'type' string"),
            SchemaError::BadDimension(d) => String::from_str("Invalid vector dimension: ").concat(
                d.as_str(),
            ),
            SchemaError::Unsupported(t) => String::from_str("Unsupported data type: ").concat(
                t.as_str(),
            ),
        }
    }
}

/// Reading of a fixed-size-list type name: everything after the
/// repeated prefix, with trailing `']'` stripped, read as the
/// dimension.
pub open spec fn parse_fsl_spec(s: Seq<char>, prefix: Seq<char>, elem: ElemType) -> Result<
    LogicalType,
    SchemaErrV,
> {
    let dim_txt = strip_trailing_spec(strip_prefix_rep_spec(s, prefix), ']');
    match parse_i32_spec(dim_txt) {
        Some(d) => Ok(LogicalType::FixedSizeList(elem, d)),
        None => Err(SchemaErrV::BadDimension(dim_txt)),
    }
}

/// Reading of a logical type out of its JSON name.
pub open spec fn parse_type_spec(s: Seq<char>) -> Result<LogicalType, SchemaErrV> {
    if s == "int8"@ {
        Ok(LogicalType::Int8)
    } else if s == "int16"@ {
        Ok(LogicalType::Int16)
    } else if s == "int32"@ {
        Ok(LogicalType::Int32)
    } else if s == "int64"@ {
        Ok(LogicalType::Int64)
    } else if s == "float16"@ {
        Ok(LogicalType::Float16)
    } else if s == "float32"@ {
        Ok(LogicalType::Float32)
    } else if s == "float64"@ {
        Ok(LogicalType::Float64)
    } else if s == "string"@ {
        Ok(LogicalType::Utf8)
    } else if s == "binary"@ {
        Ok(LogicalType::Binary)
    } else if s == "boolean"@ {
        Ok(LogicalType::Boolean)
    } else if starts_with(s, "fixed_size_list[int8;"@) {
        parse_fsl_spec(s, "fixed_size_list[int8;"@, ElemType::Int8)
    } else if starts_with(s, "fixed_size_list[int16;"@) {
        parse_fsl_spec(s, "fixed_size_list[int16;"@, ElemType::Int16)
    } else if starts_with(s, "fixed_size_list[int32;"@) {
        parse_fsl_spec(s, "fixed_size_list[int32;"@, ElemType::Int32)
    } else if starts_with(s, "fixed_size_list[int64;"@) {
        parse_fsl_spec(s, "fixed_size_list[int64;"@, ElemType::Int64)
    } else if starts_with(s, "fixed_size_list[float16;"@) {
        parse_fsl_spec(s, "fixed_size_list[float16;"@, ElemType::Float16)
    } else if starts_with(s, "fixed_size_list[float32;"@) {
        parse_fsl_spec(s, "fixed_size_list[float32;"@, ElemType::Float32)
    } else if starts_with(s, "fixed_size_list[float64;"@) {
        parse_fsl_spec(s, "fixed_size_list[float64;"@, ElemType::Float64)
    } else {
        Err(SchemaErrV::Unsupported(s))
    }
}

/// Reading of one field out of its JSON description.  A missing or
/// non-boolean `"nullable"` entry defaults to nullable.
pub open spec fn parse_field_spec(v: JsonV) -> Result<FieldV, SchemaErrV> {
    let name = match lookup(v, "name"@) {
        Some(n) => jv_as_str(n),
        None => None,
    };
    let tname = match lookup(v, "type"@) {
        Some(t) => jv_as_str(t),
        None => None,
    };
    let nullable = match lookup(v, "nullable"@) {
        Some(b) => match jv_as_bool(b) {
            Some(x) => x,
            None => true,
        },
        None => true,
    };
    match name {
        None => Err(SchemaErrV::NoName),
        Some(n) => match tname {
            None => Err(SchemaErrV::NoType),
            Some(t) => match parse_type_spec(t) {
                Ok(dt) => Ok(FieldV { name: n, dtype: dt, nullable }),
                Err(e) => Err(e),
            },
        },
    }
}

/// Reading of a field sequence, first rejection winning.
pub open spec fn parse_fields_spec(vs: Seq<JsonV>) -> Result<Seq<FieldV>, SchemaErrV>
    decreases vs.len(),
{
    if vs.len() == 0 {
        Ok(Seq::empty())
    } else {
        match parse_field_spec(vs[0]) {
            Ok(f) => match parse_fields_spec(vs.drop_first()) {
                Ok(rest) => Ok(seq![f] + rest),
                Err(e) => Err(e),
            },
            Err(e) => Err(e),
        }
    }
}

/// Reading of a whole schema out of its JSON description: the
/// document must hold a `"fields"` array, and every entry must read
/// as a field.
pub open spec fn parse_schema_spec(v: JsonV) -> Result<TableSchemaV, SchemaErrV> {
    let arr = match lookup(v, "fields"@) {
        Some(f) => jv_as_arr(f),
        None => None,
    };
    match arr {
        None => Err(SchemaErrV::NoFields),
        Some(vs) => match parse_fields_spec(vs) {
            Ok(fs) => Ok(TableSchemaV { fields: fs }),
            Err(e) => Err(e),
        },
    }
}

/// A prefix of fields already read leaves the reading of the rest.
proof fn lemma_parse_fields_split(vs: Seq<JsonV>, fs: Seq<FieldV>, i: int)
    requires
        0 <= i <= vs.len(),
        fs.len() == i,
        forall|j: int| 0 <= j < i ==> parse_field_spec(#[trigger] vs[j]) == Ok::<
            FieldV,
            SchemaErrV,
        >(fs[j]),
    ensures
        parse_fields_spec(vs) == match parse_fields_spec(vs.skip(i)) {
            Ok(rest) => Ok::<Seq<FieldV>, SchemaErrV>(fs + rest),
            Err(e) => Err::<Seq<FieldV>, SchemaErrV>(e),
        },
    decreases i,
{
    if i == 0 {
        assert(vs.skip(0) =~= vs);
        assert(fs =~= Seq::<FieldV>::empty());
        match parse_fields_spec(vs) {
            Ok(rest) => {
                assert(fs + rest =~= rest);
            },
            Err(_) => {},
        }
    } else {
        lemma_parse_fields_split(vs, fs.take(i - 1), i - 1);
        assert(vs.skip(i - 1).drop_first() =~= vs.skip(i));
        assert(vs.skip(i - 1)[0] == vs[i - 1]);
        assert(parse_field_spec(vs[i - 1]) == Ok::<FieldV, SchemaErrV>(fs[i - 1]));
        match parse_fields_spec(vs.skip(i)) {
            Ok(rest) => {
                assert(fs.take(i - 1) + (seq![fs[i - 1]] + rest) =~= fs + rest);
            },
            Err(_) => {},
        }
    }
}

/// Read a logical type out of its JSON name.
pub fn parse_type(s: &str) -> (r: Result<LogicalType, SchemaError>)
    ensures
        match r {
            Ok(t) => parse_type_spec(s@) == Ok::<LogicalType, SchemaErrV>(t),
            Err(e) => parse_type_spec(s@) == Err::<LogicalType, SchemaErrV>(e.deep_view()),
        },
{
    if str_eq(s, "int8") {
        Ok(LogicalType::Int8)
    } else if str_eq(s, "int16") {
        Ok(LogicalType::Int16)
    } else if str_eq(s, "int32") {
        Ok(LogicalType::Int32)
    } else if str_eq(s, "int64") {
        Ok(LogicalType::Int64)
    } else if str_eq(s, "float16") {
        Ok(LogicalType::Float16)
    } else if str_eq(s, "float32") {
        Ok(LogicalType::Float32)
    } else if str_eq(s, "float64") {
        Ok(LogicalType::Float64)
    } else if str_eq(s, "string") {
        Ok(LogicalType::Utf8)
    } else if str_eq(s, "binary") {
        Ok(LogicalType::Binary)
    } else if str_eq(s, "boolean") {
        Ok(LogicalType::Boolean)
    } else if str_starts_with(s, "fixed_size_list[int8;") {
        parse_fsl(s, "fixed_size_list[int8;", ElemType::Int8)
    } else if str_starts_with(s, "fixed_size_list[int16;") {
        parse_fsl(s, "fixed_size_list[int16;", ElemType::Int16)
    } else if str_starts_with(s, "fixed_size_list[int32;") {
        parse_fsl(s, "fixed_size_list[int32;", ElemType::Int32)
    } else if str_starts_with(s, "fixed_size_list[int64;") {
        parse_fsl(s, "fixed_size_list[int64;", ElemType::Int64)
    } else if str_starts_with(s, "fixed_size_list[float16;") {
        parse_fsl(s, "fixed_size_list[float16;", ElemType::Float16)
    } else if str_starts_with(s, "fixed_size_list[float32;") {
        parse_fsl(s, "fixed_size_list[float32;", ElemType::Float32)
    } else if str_starts_with(s, "fixed_size_list[float64;") {
        parse_fsl(s, "fixed_size_list[float64;", ElemType::Float64)
    } else {
        Err(SchemaError::Unsupported(s.to_owned()))
    }
}

/// Read a fixed-size-list dimension from what follows its prefix.
fn parse_fsl(s: &str, prefix: &str, elem: ElemType) -> (r: Result<LogicalType, SchemaError>)
    ensures
        match r {
            Ok(t) => parse_fsl_spec(s@, prefix@, elem) == Ok::<LogicalType, SchemaErrV>(t),
            Err(e) => parse_fsl_spec(s@, prefix@, elem) == Err::<LogicalType, SchemaErrV>(
                e.deep_view(),
            ),
        },
{
    let rest = strip_prefix_rep(s, prefix);
    let dim_txt = strip_trailing_brackets(rest);
    match parse_i32(dim_txt) {
        Some(d) => Ok(LogicalType::FixedSizeList(elem, d)),
        None => Err(SchemaError::BadDimension(dim_txt.to_owned())),
    }
}

/// Read one field out of its JSON description.
pub fn parse_field(v: &JsonValue) -> (r: Result<Field, SchemaError>)
    ensures
        match r {
            Ok(f) => parse_field_spec(jview(*v)) == Ok::<FieldV, SchemaErrV>(f.deep_view()),
            Err(e) => parse_field_spec(jview(*v)) == Err::<FieldV, SchemaErrV>(e.deep_view()),
        },
{
    let key_name = String::from_str("name");
    let key_type = String::from_str("type");
    let key_nullable = String::from_str("nullable");
    let name: &String = match v.get(&key_name) {
        Some(n) => match n.as_str() {
            Some(s) => s,
            None => {
                return Err(SchemaError::NoName);
            },
        },
        None => {
            return Err(SchemaError::NoName);
        },
    };
    let tname: &String = match v.get(&key_type) {
        Some(t) => match t.as_str() {
            Some(s) => s,
            None => {
                return Err(SchemaError::NoType);
            },
        },
        None => {
            return Err(SchemaError::NoType);
        },
    };
    let nullable: bool = match v.get(&key_nullable) {
        Some(b) => match b.as_bool() {
            Some(x) => x,
            None => true,
        },
        None => true,
    };
    match parse_type(tname.as_str()) {
        Ok(dt) => Ok(Field { name: name.clone(), dtype: dt, nullable }),
        Err(e) => Err(e),
    }
}

/// Read a whole schema out of its JSON description.
pub fn parse_schema(v: &JsonValue) -> (r: Result<TableSchema, SchemaError>)
    ensures
        match r {
            Ok(s) => parse_schema_spec(jview(*v)) == Ok::<TableSchemaV, SchemaErrV>(s.deep_view()),
            Err(e) => parse_schema_spec(jview(*v)) == Err::<TableSchemaV, SchemaErrV>(e.deep_view()),
        },
{
    let key_fields = String::from_str("fields");
    let fields_arr: &Vec<JsonValue> = match v.get(&key_fields) {
        Some(f) => match f.as_arr() {
            Some(a) => a,
            None => {
                return Err(SchemaError::NoFields);
            },
        },
        None => {
            return Err(SchemaError::NoFields);
        },
    };
    let ghost vs = jview_seq(fields_arr@);
    proof {
        crate::json::lemma_jview_seq(fields_arr@);
    }
    let n = fields_arr.len();
    let mut fields: Vec<Field> = Vec::new();
    let mut i: usize = 0;
    while i < n
        invariant
            n == fields_arr@.len(),
            i <= n,
            vs == jview_seq(fields_arr@),
            vs.len() == n,
            parse_schema_spec(jview(*v)) == match parse_fields_spec(vs) {
                Ok(fs) => Ok::<TableSchemaV, SchemaErrV>(TableSchemaV { fields: fs }),
                Err(e) => Err::<TableSchemaV, SchemaErrV>(e),
            },
            forall|j: int| 0 <= j < n ==> #[trigger] vs[j] == jview(fields_arr@[j]),
            fields@.len() == i,
            forall|j: int| 0 <= j < i ==> parse_field_spec(#[trigger] vs[j]) == Ok::<
                FieldV,
                SchemaErrV,
            >(fields.deep_view()[j]),
        decreases n - i,
    {
        match parse_field(&fields_arr[i]) {
            Ok(f) => {
                fields.push(f);
            },
            Err(e) => {
                proof {
                    lemma_parse_fields_split(vs, fields.deep_view(), i as int);
                    assert(vs.skip(i as int)[0] == vs[i as int]);
                }
                return Err(e);
            },
        }
        i += 1;
    }
    proof {
        lemma_parse_fields_split(vs, fields.deep_view(), n as int);
        assert(vs.skip(n as int) =~= Seq::empty());
        assert(fields.deep_view() + Seq::<FieldV>::empty() =~= fields.deep_view());
    }
    Ok(TableSchema { fields })
}

/// The compute step of table creation: read the schema description
/// out of its JSON document, or build the failure envelope that the
/// creation call reports.
pub fn create_table_schema(doc: &JsonValue) -> (r: Result<TableSchema, crate::envelope::Envelope>)
    ensures
        match r {
            Ok(s) => parse_schema_spec(jview(*doc)) == Ok::<TableSchemaV, SchemaErrV>(s.deep_view()),
            Err(env) => parse_schema_spec(jview(*doc)) matches Err(e) && env.deep_view().wf()
                && !env.deep_view().success && env.deep_view().message == Some(
                crate::envelope::wire_text("Failed to create Arrow schema: "@ + schema_err_msg(e)),
            ),
        },
{
    match parse_schema(doc) {
        Ok(s) => Ok(s),
        Err(e) => {
            let msg = String::from_str("Failed to create Arrow schema: ").concat(
                e.message().as_str(),
            );
            Err(crate::envelope::Envelope::error(msg))
        },
    }
}

} // verus!
