//! The marshaller between JSON row objects and columnar batches.
//!
//! Decoding is strict: a value whose shape does not match the field's
//! declared type is rejected, numbers are range-checked rather than
//! truncated, a fixed-size-list value must carry exactly the declared
//! element count, and any rejection fails the whole batch.  Encoding
//! is total: nulls map to JSON null before any type dispatch, and a
//! value of an unsupported type degrades to a readable string tag.
use vstd::prelude::*;
use vstd::string::StringExecFns;
use crate::batch::{cell_ok, cview, cview_seq, lemma_cview_seq, Batch, BatchV, Cell, CellV};
use crate::json::{
    jview, jview_seq, lemma_jview_seq, lookup, JsonV, JsonValue, NumLit, NumV,
};
use crate::schema::{Field, FieldV, LogicalType, TableSchema, TableSchemaV};
use crate::text::{dec_str, i32_to_string, i64_to_string, int_str, u64_to_string};

verus! {

/// Why decoding rejected its input, with what the message needs.
#[derive(Clone, PartialEq, Debug)]
pub enum DecodeError {
    /// A number outside the declared width's signed range on a
    /// narrow integer field.
    OutOfRange { field: String, value: i64, dtype: LogicalType },
    /// A number an integer field cannot hold exactly.
    InvalidNumber { field: String },
    /// A non-number on a numeric field.
    NotNumber { field: String },
    /// A non-boolean on a boolean field.
    NotBool { field: String },
    /// A non-string on a string field.
    NotString { field: String },
    /// A non-array on a fixed-size-list field.
    NotArray { field: String },
    /// A key absent on a non-nullable field.
    Missing { field: String },
    /// A fixed-size-list value with the wrong element count.
    WrongArity { field: String, expected: i32, got: usize },
    /// A fixed-size-list element that is not a number.
    BadElem { field: String },
    /// A field whose declared type decoding does not support.
    UnsupportedType { dtype: LogicalType },
    /// A schema without fields describes no batch.
    NoColumns,
}

/// Mathematical image of `DecodeError`.
pub ghost enum DecodeErrV {
    OutOfRange(Seq<char>, i64, LogicalType),
    InvalidNumber(Seq<char>),
    NotNumber(Seq<char>),
    NotBool(Seq<char>),
    NotString(Seq<char>),
    NotArray(Seq<char>),
    Missing(Seq<char>),
    WrongArity(Seq<char>, i32, nat),
    BadElem(Seq<char>),
    UnsupportedType(LogicalType),
    NoColumns,
}

impl DeepView for DecodeError {
    type V = DecodeErrV;

    open spec fn deep_view(&self) -> DecodeErrV {
        match self {
            DecodeError::OutOfRange { field, value, dtype } => DecodeErrV::OutOfRange(
                field@,
                *value,
                *dtype,
            ),
            DecodeError::InvalidNumber { field } => DecodeErrV::InvalidNumber(field@),
            DecodeError::NotNumber { field } => DecodeErrV::NotNumber(field@),
            DecodeError::NotBool { field } => DecodeErrV::NotBool(field@),
            DecodeError::NotString { field } => DecodeErrV::NotString(field@),
            DecodeError::NotArray { field } => DecodeErrV::NotArray(field@),
            DecodeError::Missing { field } => DecodeErrV::Missing(field@),
            DecodeError::WrongArity { field, expected, got } => DecodeErrV::WrongArity(
                field@,
                *expected,
                *got as nat,
            ),
            DecodeError::BadElem { field } => DecodeErrV::BadElem(field@),
            DecodeError::UnsupportedType { dtype } => DecodeErrV::UnsupportedType(*dtype),
            DecodeError::NoColumns => DecodeErrV::NoColumns,
        }
    }
}

/// The width name a range rejection spells.
pub open spec fn width_label(t: LogicalType) -> Seq<char> {
    match t {
        LogicalType::Int8 => "i8"@,
        LogicalType::Int16 => "i16"@,
        _ => "i32"@,
    }
}

/// Render the width name for a range rejection.
fn width_str(t: LogicalType) -> (r: &'static str)
    ensures
        r@ == width_label(t),
{
    match t {
        LogicalType::Int8 => "i8",
        LogicalType::Int16 => "i16",
        _ => "i32",
    }
}

/// The human-readable message for a decode rejection, with its
/// field-level detail.
pub open spec fn decode_err_msg(e: DecodeErrV) -> Seq<char> {
    match e {
        DecodeErrV::OutOfRange(f, v, t) => "Number "@ + int_str(v as int)
            + " out of range for "@ + width_label(t) + " in field "@ + f,
        DecodeErrV::InvalidNumber(f) => "Invalid number format in field "@ + f,
        DecodeErrV::NotNumber(f) => "Expected number for field "@ + f
            + " but got different type"@,
        DecodeErrV::NotBool(f) => "Expected boolean for field "@ + f
            + " but got different type"@,
        DecodeErrV::NotString(f) => "Expected string for field "@ + f
            + " but got different type"@,
        DecodeErrV::NotArray(f) => "Expected array for vector field "@ + f
            + " but got different type"@,
        DecodeErrV::Missing(f) => "Missing required field "@ + f,
        DecodeErrV::WrongArity(f, d, n) => "Vector field "@ + f + " expects "@ + int_str(d as int)
            + " elements but got "@ + dec_str(n),
        DecodeErrV::BadElem(f) => "Invalid vector element in field "@ + f,
        DecodeErrV::UnsupportedType(t) => "Unsupported data type: "@ + crate::schema::type_label(t),
        DecodeErrV::NoColumns => "Failed to create record batch: a batch needs at least one column"@,
    }
}

impl DecodeError {
    /// The human-readable message for this rejection.
    pub fn message(&self) -> (r: String)
        ensures
            r@ == decode_err_msg(self.deep_view()),
    {
        match self {
            DecodeError::OutOfRange { field, value, dtype } => {
                let r = String::from_str("Number ").concat(i64_to_string(*value).as_str()).concat(
                    " out of range for ",
                ).concat(width_str(*dtype)).concat(" in field ").concat(field.as_str());
                proof {
                    assert(r@ =~= decode_err_msg(self.deep_view()));
                }
                r
            },
            DecodeError::InvalidNumber { field } => String::from_str(
                "Invalid number format in field ",
            ).concat(field.as_str()),
            DecodeError::NotNumber { field } => {
                let r = String::from_str("Expected number for field ").concat(
                    field.as_str(),
                ).concat(" but got different type");
                proof {
                    assert(r@ =~= decode_err_msg(self.deep_view()));
                }
                r
            },
            DecodeError::NotBool { field } => {
                let r = String::from_str("Expected boolean for field ").concat(
                    field.as_str(),
                ).concat(" but got different type");
                proof {
                    assert(r@ =~= decode_err_msg(self.deep_view()));
                }
                r
            },
            DecodeError::NotString { field } => {
                let r = String::from_str("Expected string for field ").concat(
                    field.as_str(),
                ).concat(" but got different type");
                proof {
                    assert(r@ =~= decode_err_msg(self.deep_view()));
                }
                r
            },
            DecodeError::NotArray { field } => {
                let r = String::from_str("Expected array for vector field ").concat(
                    field.as_str(),
                ).concat(" but got different type");
                proof {
                    assert(r@ =~= decode_err_msg(self.deep_view()));
                }
                r
            },
            DecodeError::Missing { field } => String::from_str("Missing required field ").concat(
                field.as_str(),
            ),
            DecodeError::WrongArity { field, expected, got } => {
                let r = String::from_str("Vector field ").concat(field.as_str()).concat(
                    " expects ",
                ).concat(i32_to_string(*expected).as_str()).concat(" elements but got ").concat(
                    u64_to_string(*got as u64).as_str(),
                );
                proof {
                    assert(r@ =~= decode_err_msg(self.deep_view()));
                }
                r
            },
            DecodeError::BadElem { field } => String::from_str(
                "Invalid vector element in field ",
            ).concat(field.as_str()),
            DecodeError::UnsupportedType { dtype } => String::from_str(
                "Unsupported data type: ",
            ).concat(crate::schema::render_type_label(*dtype).as_str()),
            DecodeError::NoColumns => String::from_str(
                "Failed to create record batch: a batch needs at least one column",
            ),
        }
    }
}

/// The logical types the decode direction accepts: every supported
/// type except variable binary and the unknown placeholder.  The
/// wire format gives a binary value no JSON shape, so binary fields
/// stay out of the JSON path and are rejected as unsupported.
pub open spec fn supported_decode(t: LogicalType) -> bool {
    match t {
        LogicalType::Binary => false,
        LogicalType::Other => false,
        _ => true,
    }
}

/// Whether every element of `es` is a JSON number.
pub open spec fn all_nums(es: Seq<JsonV>) -> bool {
    forall|k: int| 0 <= k < es.len() ==> (#[trigger] es[k]) is Num
}

/// The cells of a fixed-size-list value whose elements are numbers.
pub open spec fn elem_cells(es: Seq<JsonV>) -> Seq<CellV> {
    Seq::new(es.len(), |k: int| CellV::Num(es[k]->Num_0))
}

/// Decoding of one row's entry for a field, the entry being what a
/// key lookup in the row object yielded.  JSON null, and an absent
/// key, decode to a null cell exactly on nullable fields.
pub open spec fn decode_entry_spec(f: FieldV, entry: Option<JsonV>) -> Result<CellV, DecodeErrV> {
    match f.dtype {
        LogicalType::Int8 => match entry {
            Some(JsonV::Num(NumV::Int(i))) => if i8::MIN <= i <= i8::MAX {
                Ok(CellV::I8(i as i8))
            } else {
                Err(DecodeErrV::OutOfRange(f.name, i, LogicalType::Int8))
            },
            Some(JsonV::Num(_)) => Err(DecodeErrV::InvalidNumber(f.name)),
            Some(JsonV::Null) => if f.nullable {
                Ok(CellV::Null)
            } else {
                Err(DecodeErrV::NotNumber(f.name))
            },
            Some(_) => Err(DecodeErrV::NotNumber(f.name)),
            None => if f.nullable {
                Ok(CellV::Null)
            } else {
                Err(DecodeErrV::Missing(f.name))
            },
        },
        LogicalType::Int16 => match entry {
            Some(JsonV::Num(NumV::Int(i))) => if i16::MIN <= i <= i16::MAX {
                Ok(CellV::I16(i as i16))
            } else {
                Err(DecodeErrV::OutOfRange(f.name, i, LogicalType::Int16))
            },
            Some(JsonV::Num(_)) => Err(DecodeErrV::InvalidNumber(f.name)),
            Some(JsonV::Null) => if f.nullable {
                Ok(CellV::Null)
            } else {
                Err(DecodeErrV::NotNumber(f.name))
            },
            Some(_) => Err(DecodeErrV::NotNumber(f.name)),
            None => if f.nullable {
                Ok(CellV::Null)
            } else {
                Err(DecodeErrV::Missing(f.name))
            },
        },
        LogicalType::Int32 => match entry {
            Some(JsonV::Num(NumV::Int(i))) => if i32::MIN <= i <= i32::MAX {
                Ok(CellV::I32(i as i32))
            } else {
                Err(DecodeErrV::OutOfRange(f.name, i, LogicalType::Int32))
            },
            Some(JsonV::Num(_)) => Err(DecodeErrV::InvalidNumber(f.name)),
            Some(JsonV::Null) => if f.nullable {
                Ok(CellV::Null)
            } else {
                Err(DecodeErrV::NotNumber(f.name))
            },
            Some(_) => Err(DecodeErrV::NotNumber(f.name)),
            None => if f.nullable {
                Ok(CellV::Null)
            } else {
                Err(DecodeErrV::Missing(f.name))
            },
        },
        LogicalType::Int64 => match entry {
            Some(JsonV::Num(NumV::Int(i))) => Ok(CellV::I64(i)),
            Some(JsonV::Num(_)) => Err(DecodeErrV::InvalidNumber(f.name)),
            Some(JsonV::Null) => if f.nullable {
                Ok(CellV::Null)
            } else {
                Err(DecodeErrV::NotNumber(f.name))
            },
            Some(_) => Err(DecodeErrV::NotNumber(f.name)),
            None => if f.nullable {
                Ok(CellV::Null)
            } else {
                Err(DecodeErrV::Missing(f.name))
            },
        },
        LogicalType::Float16 | LogicalType::Float32 | LogicalType::Float64 => match entry {
            Some(JsonV::Num(l)) => Ok(CellV::Num(l)),
            Some(JsonV::Null) => if f.nullable {
                Ok(CellV::Null)
            } else {
                Err(DecodeErrV::NotNumber(f.name))
            },
            Some(_) => Err(DecodeErrV::NotNumber(f.name)),
            None => if f.nullable {
                Ok(CellV::Null)
            } else {
                Err(DecodeErrV::Missing(f.name))
            },
        },
        LogicalType::Boolean => match entry {
            Some(JsonV::Bool(b)) => Ok(CellV::Bool(b)),
            Some(JsonV::Null) => if f.nullable {
                Ok(CellV::Null)
            } else {
                Err(DecodeErrV::NotBool(f.name))
            },
            Some(_) => Err(DecodeErrV::NotBool(f.name)),
            None => if f.nullable {
                Ok(CellV::Null)
            } else {
                Err(DecodeErrV::Missing(f.name))
            },
        },
        LogicalType::Utf8 => match entry {
            Some(JsonV::Str(s)) => Ok(CellV::Str(s)),
            Some(JsonV::Null) => if f.nullable {
                Ok(CellV::Null)
            } else {
                Err(DecodeErrV::NotString(f.name))
            },
            Some(_) => Err(DecodeErrV::NotString(f.name)),
            None => if f.nullable {
                Ok(CellV::Null)
            } else {
                Err(DecodeErrV::Missing(f.name))
            },
        },
        LogicalType::FixedSizeList(_, d) => match entry {
            Some(JsonV::Arr(es)) => if !(d >= 0 && es.len() == d) {
                Err(DecodeErrV::WrongArity(f.name, d, es.len()))
            } else if !all_nums(es) {
                Err(DecodeErrV::BadElem(f.name))
            } else {
                Ok(CellV::Arr(elem_cells(es)))
            },
            Some(JsonV::Null) => if f.nullable {
                Ok(CellV::Null)
            } else {
                Err(DecodeErrV::NotArray(f.name))
            },
            Some(_) => Err(DecodeErrV::NotArray(f.name)),
            None => if f.nullable {
                Ok(CellV::Null)
            } else {
                Err(DecodeErrV::Missing(f.name))
            },
        },
        _ => Err(DecodeErrV::UnsupportedType(f.dtype)),
    }
}

/// Decoding of one row's cell for a field: the field's key is looked
/// up in the row object, and the entry decoded.
pub open spec fn decode_cell_spec(f: FieldV, row: JsonV) -> Result<CellV, DecodeErrV> {
    decode_entry_spec(f, lookup(row, f.name))
}

/// Decoding of one field's column, row by row, first rejection
/// winning.
pub open spec fn decode_col_rows_spec(f: FieldV, rows: Seq<JsonV>) -> Result<
    Seq<CellV>,
    DecodeErrV,
>
    decreases rows.len(),
{
    if rows.len() == 0 {
        Ok(Seq::empty())
    } else {
        match decode_cell_spec(f, rows[0]) {
            Ok(c) => match decode_col_rows_spec(f, rows.drop_first()) {
                Ok(rest) => Ok(seq![c] + rest),
                Err(e) => Err(e),
            },
            Err(e) => Err(e),
        }
    }
}

/// Decoding of one field's column: a field of an unsupported type is
/// rejected before any row is looked at.
pub open spec fn decode_col_spec(f: FieldV, rows: Seq<JsonV>) -> Result<Seq<CellV>, DecodeErrV> {
    if !supported_decode(f.dtype) {
        Err(DecodeErrV::UnsupportedType(f.dtype))
    } else {
        decode_col_rows_spec(f, rows)
    }
}

/// Decoding of all columns, field by field, first rejection winning.
pub open spec fn decode_cols_spec(fields: Seq<FieldV>, rows: Seq<JsonV>) -> Result<
    Seq<Seq<CellV>>,
    DecodeErrV,
>
    decreases fields.len(),
{
    if fields.len() == 0 {
        Ok(Seq::empty())
    } else {
        match decode_col_spec(fields[0], rows) {
            Ok(col) => match decode_cols_spec(fields.drop_first(), rows) {
                Ok(rest) => Ok(seq![col] + rest),
                Err(e) => Err(e),
            },
            Err(e) => Err(e),
        }
    }
}

/// Decoding of a whole batch out of row objects: one column per
/// field, all rows of a field before the next field, any rejection
/// failing the whole batch.  A schema without fields describes no
/// batch.
pub open spec fn decode_rows_spec(s: TableSchemaV, rows: Seq<JsonV>) -> Result<BatchV, DecodeErrV> {
    if s.fields.len() == 0 {
        Err(DecodeErrV::NoColumns)
    } else {
        match decode_cols_spec(s.fields, rows) {
            Ok(cols) => Ok(BatchV { schema: s, cols, nrows: rows.len() }),
            Err(e) => Err(e),
        }
    }
}

/// A cell that decoding accepted is admissible for its field.
proof fn lemma_decode_entry_ok(f: FieldV, entry: Option<JsonV>)
    requires
        supported_decode(f.dtype),
    ensures
        decode_entry_spec(f, entry) matches Ok(c) ==> cell_ok(f, c),
{
}

/// A decoded column has one admissible cell per row.
proof fn lemma_decode_col_rows_wf(f: FieldV, rows: Seq<JsonV>)
    requires
        supported_decode(f.dtype),
    ensures
        decode_col_rows_spec(f, rows) matches Ok(col) ==> col.len() == rows.len() && forall|
            r: int,
        | 0 <= r < col.len() ==> cell_ok(f, #[trigger] col[r]),
    decreases rows.len(),
{
    if rows.len() > 0 {
        lemma_decode_entry_ok(f, lookup(rows[0], f.name));
        lemma_decode_col_rows_wf(f, rows.drop_first());
        if decode_col_rows_spec(f, rows) is Ok {
            let col = decode_col_rows_spec(f, rows)->Ok_0;
            let c = decode_cell_spec(f, rows[0])->Ok_0;
            let rest = decode_col_rows_spec(f, rows.drop_first())->Ok_0;
            assert(col == seq![c] + rest);
            assert forall|r: int| 0 <= r < col.len() implies cell_ok(f, #[trigger] col[r]) by {
                if r == 0 {
                    assert(col[0] == c);
                } else {
                    assert(col[r] == rest[r - 1]);
                }
            }
        }
    }
}

/// A decoded batch is well-formed: columns in field order, equal row
/// counts, admissible cells everywhere.
pub proof fn lemma_decode_wf(s: TableSchemaV, rows: Seq<JsonV>)
    ensures
        decode_rows_spec(s, rows) matches Ok(b) ==> b.wf() && b.schema == s && b.nrows
            == rows.len(),
{
    lemma_decode_cols_wf(s.fields, rows);
}

/// Columns decoded from a field sequence line up with the fields.
proof fn lemma_decode_cols_wf(fields: Seq<FieldV>, rows: Seq<JsonV>)
    ensures
        decode_cols_spec(fields, rows) matches Ok(cols) ==> cols.len() == fields.len() && (forall|
            j: int,
        | 0 <= j < cols.len() ==> (#[trigger] cols[j]).len() == rows.len()) && (forall|
            j: int,
            r: int,
        |
            0 <= j < cols.len() && 0 <= r < rows.len() ==> cell_ok(
                fields[j],
                #[trigger] cols[j][r],
            )),
    decreases fields.len(),
{
    if fields.len() > 0 && decode_cols_spec(fields, rows) is Ok {
        lemma_decode_col_rows_wf(fields[0], rows);
        lemma_decode_cols_wf(fields.drop_first(), rows);
        let cols = decode_cols_spec(fields, rows)->Ok_0;
        let col0 = decode_col_spec(fields[0], rows)->Ok_0;
        let rest = decode_cols_spec(fields.drop_first(), rows)->Ok_0;
        assert(cols == seq![col0] + rest);
        assert forall|j: int| 0 <= j < cols.len() implies (#[trigger] cols[j]).len()
            == rows.len() by {
            if j == 0 {
                assert(cols[0] == col0);
            } else {
                assert(cols[j] == rest[j - 1]);
            }
        }
        assert forall|j: int, r: int|
            0 <= j < cols.len() && 0 <= r < rows.len() implies cell_ok(
            fields[j],
            #[trigger] cols[j][r],
        ) by {
            if j == 0 {
                assert(cols[0] == col0);
            } else {
                assert(cols[j] == rest[j - 1]);
                assert(fields.drop_first()[j - 1] == fields[j]);
            }
        }
    }
}

/// A prefix of columns already decoded leaves the decoding of the
/// remaining fields.
proof fn lemma_decode_cols_split(fields: Seq<FieldV>, rows: Seq<JsonV>, cs: Seq<Seq<CellV>>, i: int)
    requires
        0 <= i <= fields.len(),
        cs.len() == i,
        forall|j: int| 0 <= j < i ==> decode_col_spec(#[trigger] fields[j], rows) == Ok::<
            Seq<CellV>,
            DecodeErrV,
        >(cs[j]),
    ensures
        decode_cols_spec(fields, rows) == match decode_cols_spec(fields.skip(i), rows) {
            Ok(rest) => Ok::<Seq<Seq<CellV>>, DecodeErrV>(cs + rest),
            Err(e) => Err::<Seq<Seq<CellV>>, DecodeErrV>(e),
        },
    decreases i,
{
    if i == 0 {
        assert(fields.skip(0) =~= fields);
        assert(cs =~= Seq::<Seq<CellV>>::empty());
        match decode_cols_spec(fields, rows) {
            Ok(rest) => {
                assert(cs + rest =~= rest);
            },
            Err(_) => {},
        }
    } else {
        lemma_decode_cols_split(fields, rows, cs.take(i - 1), i - 1);
        assert(fields.skip(i - 1).drop_first() =~= fields.skip(i));
        assert(fields.skip(i - 1)[0] == fields[i - 1]);
        assert(decode_col_spec(fields[i - 1], rows) == Ok::<Seq<CellV>, DecodeErrV>(cs[i - 1]));
        match decode_cols_spec(fields.skip(i), rows) {
            Ok(rest) => {
                assert(cs.take(i - 1) + (seq![cs[i - 1]] + rest) =~= cs + rest);
            },
            Err(_) => {},
        }
    }
}

/// A prefix of rows already decoded leaves the decoding of the rest.
proof fn lemma_decode_col_rows_split(f: FieldV, rows: Seq<JsonV>, cs: Seq<CellV>, i: int)
    requires
        0 <= i <= rows.len(),
        cs.len() == i,
        forall|r: int| 0 <= r < i ==> decode_cell_spec(f, #[trigger] rows[r]) == Ok::<
            CellV,
            DecodeErrV,
        >(cs[r]),
    ensures
        decode_col_rows_spec(f, rows) == match decode_col_rows_spec(f, rows.skip(i)) {
            Ok(rest) => Ok::<Seq<CellV>, DecodeErrV>(cs + rest),
            Err(e) => Err::<Seq<CellV>, DecodeErrV>(e),
        },
    decreases i,
{
    if i == 0 {
        assert(rows.skip(0) =~= rows);
        assert(cs =~= Seq::<CellV>::empty());
        match decode_col_rows_spec(f, rows) {
            Ok(rest) => {
                assert(cs + rest =~= rest);
            },
            Err(_) => {},
        }
    } else {
        lemma_decode_col_rows_split(f, rows, cs.take(i - 1), i - 1);
        assert(rows.skip(i - 1).drop_first() =~= rows.skip(i));
        assert(rows.skip(i - 1)[0] == rows[i - 1]);
        assert(decode_cell_spec(f, rows[i - 1]) == Ok::<CellV, DecodeErrV>(cs[i - 1]));
        match decode_col_rows_spec(f, rows.skip(i)) {
            Ok(rest) => {
                assert(cs.take(i - 1) + (seq![cs[i - 1]] + rest) =~= cs + rest);
            },
            Err(_) => {},
        }
    }
}

/// Encoding of one cell into its JSON value: a null cell maps to
/// JSON null before any type dispatch, integers, booleans and
/// strings map to their natural JSON forms, a list maps elementwise
/// to a JSON array, and an unsupported value's tag degrades to a
/// JSON string.
pub open spec fn encode_cell_spec(c: CellV) -> JsonV
    decreases c,
{
    match c {
        CellV::Null => JsonV::Null,
        CellV::I8(v) => JsonV::Num(NumV::Int(v as i64)),
        CellV::I16(v) => JsonV::Num(NumV::Int(v as i64)),
        CellV::I32(v) => JsonV::Num(NumV::Int(v as i64)),
        CellV::I64(v) => JsonV::Num(NumV::Int(v)),
        CellV::Num(l) => JsonV::Num(l),
        CellV::Bool(b) => JsonV::Bool(b),
        CellV::Str(s) => JsonV::Str(s),
        CellV::Arr(es) => JsonV::Arr(encode_cells_spec(es)),
        CellV::Tag(s) => JsonV::Str(s),
    }
}

/// Encoding of a sequence of cells, elementwise.
pub open spec fn encode_cells_spec(es: Seq<CellV>) -> Seq<JsonV>
    decreases es,
{
    if es.len() == 0 {
        Seq::empty()
    } else {
        seq![encode_cell_spec(es[0])] + encode_cells_spec(es.drop_first())
    }
}

/// `encode_cells_spec` is the elementwise encoding.
pub broadcast proof fn lemma_encode_cells(es: Seq<CellV>)
    ensures
        (#[trigger] encode_cells_spec(es)).len() == es.len(),
        forall|k: int| 0 <= k < es.len() ==> encode_cells_spec(es)[k] == encode_cell_spec(es[k]),
    decreases es,
{
    if es.len() > 0 {
        lemma_encode_cells(es.drop_first());
    }
}

/// Encoding of one row of a batch: an object with one entry per
/// field, in field order.
pub open spec fn encode_row_spec(fields: Seq<FieldV>, cols: Seq<Seq<CellV>>, r: int) -> JsonV {
    JsonV::Obj(Seq::new(fields.len(), |j: int| (fields[j].name, encode_cell_spec(cols[j][r]))))
}

/// Encoding of a whole batch into row objects.
pub open spec fn encode_rows_spec(b: BatchV) -> Seq<JsonV> {
    Seq::new(b.nrows, |r: int| encode_row_spec(b.schema.fields, b.cols, r))
}

/// Decoding only succeeds over fields of supported types.
proof fn lemma_decode_cols_supported(fields: Seq<FieldV>, rows: Seq<JsonV>)
    ensures
        decode_cols_spec(fields, rows) is Ok ==> forall|j: int|
            0 <= j < fields.len() ==> supported_decode((#[trigger] fields[j]).dtype),
    decreases fields.len(),
{
    if fields.len() > 0 && decode_cols_spec(fields, rows) is Ok {
        lemma_decode_cols_supported(fields.drop_first(), rows);
        assert(forall|j: int|
            1 <= j < fields.len() ==> #[trigger] fields[j] == fields.drop_first()[j - 1]);
    }
}

/// A column whose cells all decode is the sequence of those cells.
proof fn lemma_decode_col_rows_pointwise(f: FieldV, rows: Seq<JsonV>, col: Seq<CellV>)
    requires
        col.len() == rows.len(),
        forall|r: int| 0 <= r < rows.len() ==> decode_cell_spec(f, #[trigger] rows[r]) == Ok::<
            CellV,
            DecodeErrV,
        >(col[r]),
    ensures
        decode_col_rows_spec(f, rows) == Ok::<Seq<CellV>, DecodeErrV>(col),
    decreases rows.len(),
{
    if rows.len() > 0 {
        assert(forall|r: int|
            0 <= r < rows.len() - 1 ==> (#[trigger] rows.drop_first()[r]) == rows[r + 1]);
        lemma_decode_col_rows_pointwise(f, rows.drop_first(), col.drop_first());
        assert(seq![col[0]] + col.drop_first() =~= col);
    } else {
        assert(col =~= Seq::<CellV>::empty());
    }
}

/// Columns that all decode are the sequence of those columns.
proof fn lemma_decode_cols_pointwise(fields: Seq<FieldV>, rows: Seq<JsonV>, cols: Seq<Seq<CellV>>)
    requires
        cols.len() == fields.len(),
        forall|j: int| 0 <= j < fields.len() ==> decode_col_spec(#[trigger] fields[j], rows)
            == Ok::<Seq<CellV>, DecodeErrV>(cols[j]),
    ensures
        decode_cols_spec(fields, rows) == Ok::<Seq<Seq<CellV>>, DecodeErrV>(cols),
    decreases fields.len(),
{
    if fields.len() > 0 {
        assert(forall|j: int|
            0 <= j < fields.len() - 1 ==> (#[trigger] fields.drop_first()[j]) == fields[j + 1]);
        lemma_decode_cols_pointwise(fields.drop_first(), rows, cols.drop_first());
        assert(seq![cols[0]] + cols.drop_first() =~= cols);
    } else {
        assert(cols =~= Seq::<Seq<CellV>>::empty());
    }
}

/// One admissible cell survives the encode-decode round trip.
proof fn lemma_cell_round_trip(f: FieldV, c: CellV)
    requires
        supported_decode(f.dtype),
        cell_ok(f, c),
    ensures
        decode_entry_spec(f, Some(encode_cell_spec(c))) == Ok::<CellV, DecodeErrV>(c),
{
    match c {
        CellV::Arr(es) => {
            lemma_encode_cells(es);
            let enc = encode_cells_spec(es);
            assert(all_nums(enc)) by {
                assert(forall|k: int|
                    0 <= k < enc.len() ==> #[trigger] enc[k] == encode_cell_spec(es[k]));
            }
            assert(elem_cells(enc) =~= es) by {
                assert(forall|k: int| 0 <= k < es.len() ==> #[trigger] es[k] is Num);
                assert(forall|k: int|
                    0 <= k < enc.len() ==> #[trigger] enc[k] == encode_cell_spec(es[k]));
            }
        },
        _ => {},
    }
}

/// Decoding what encoding produced gives the batch back, for every
/// well-formed batch over a schema with unique field names, at least
/// one field, and supported types throughout.
pub proof fn lemma_decode_encode_round_trip(b: BatchV)
    requires
        b.wf(),
        b.schema.wf(),
        b.schema.fields.len() > 0,
        forall|j: int|
            0 <= j < b.schema.fields.len() ==> supported_decode(
                (#[trigger] b.schema.fields[j]).dtype,
            ),
    ensures
        decode_rows_spec(b.schema, encode_rows_spec(b)) == Ok::<BatchV, DecodeErrV>(b),
{
    let fields = b.schema.fields;
    let rows = encode_rows_spec(b);
    assert forall|j: int| 0 <= j < fields.len() implies decode_col_spec(
        #[trigger] fields[j],
        rows,
    ) == Ok::<Seq<CellV>, DecodeErrV>(b.cols[j]) by {
        assert forall|r: int| 0 <= r < rows.len() implies decode_cell_spec(
            fields[j],
            #[trigger] rows[r],
        ) == Ok::<CellV, DecodeErrV>(b.cols[j][r]) by {
            let row = encode_row_spec(fields, b.cols, r);
            let entries = row->Obj_0;
            assert(entries[j] == (fields[j].name, encode_cell_spec(b.cols[j][r])));
            assert forall|m: int| 0 <= m < j implies (#[trigger] entries[m]).0
                != entries[j].0 by {
                assert(entries[m].0 == fields[m].name);
            }
            crate::json::lemma_obj_lookup_at(entries, j);
            lemma_cell_round_trip(fields[j], b.cols[j][r]);
        }
        lemma_decode_col_rows_pointwise(fields[j], rows, b.cols[j]);
    }
    lemma_decode_cols_pointwise(fields, rows, b.cols);
    let out = decode_rows_spec(b.schema, rows)->Ok_0;
    assert(out.cols =~= b.cols);
    assert(out =~~= b);
}

/// Re-decoding the encoding of a decoded batch changes nothing, for
/// any schema with unique field names.
pub proof fn lemma_decode_rows_stable(s: TableSchemaV, rows: Seq<JsonV>)
    requires
        s.wf(),
        decode_rows_spec(s, rows) is Ok,
    ensures
        decode_rows_spec(s, encode_rows_spec(decode_rows_spec(s, rows)->Ok_0))
            == decode_rows_spec(s, rows),
{
    let b = decode_rows_spec(s, rows)->Ok_0;
    lemma_decode_wf(s, rows);
    lemma_decode_cols_supported(s.fields, rows);
    lemma_decode_encode_round_trip(b);
}

/// On a nullable field of any supported type, a JSON null entry and
/// an absent key both decode to a null cell, never to a default
/// value.
pub proof fn lemma_null_decodes_to_null(f: FieldV)
    requires
        f.nullable,
    ensures
        supported_decode(f.dtype) ==> decode_entry_spec(f, Some(JsonV::Null)) == Ok::<
            CellV,
            DecodeErrV,
        >(CellV::Null),
        supported_decode(f.dtype) ==> decode_entry_spec(f, None) == Ok::<CellV, DecodeErrV>(
            CellV::Null,
        ),
{
}

/// A number outside the 32-bit signed range on an `int32` field is
/// rejected with a range error, never truncated.
pub proof fn lemma_int32_range_rejection(f: FieldV, v: i64)
    requires
        f.dtype == LogicalType::Int32,
        !(i32::MIN <= v <= i32::MAX),
    ensures
        decode_entry_spec(f, Some(JsonV::Num(NumV::Int(v)))) == Err::<CellV, DecodeErrV>(
            DecodeErrV::OutOfRange(f.name, v, LogicalType::Int32),
        ),
{
}

/// A column with a rejected row rejects as a whole.
proof fn lemma_col_error_fails(f: FieldV, rows: Seq<JsonV>, r: int)
    requires
        0 <= r < rows.len(),
        decode_cell_spec(f, rows[r]) is Err,
    ensures
        decode_col_rows_spec(f, rows) is Err,
    decreases r,
{
    if decode_cell_spec(f, rows[0]) is Ok {
        lemma_col_error_fails(f, rows.drop_first(), r - 1);
    }
}

/// One rejected cell anywhere fails the whole batch, not just its
/// row.
pub proof fn lemma_cell_error_fails_batch(s: TableSchemaV, rows: Seq<JsonV>, j: int, r: int)
    requires
        0 <= j < s.fields.len(),
        0 <= r < rows.len(),
        decode_cell_spec(s.fields[j], rows[r]) is Err,
    ensures
        decode_rows_spec(s, rows) is Err,
{
    lemma_cols_error_fails(s.fields, rows, j, r);
}

/// Helper for the whole-batch failure law, by induction over fields.
proof fn lemma_cols_error_fails(fields: Seq<FieldV>, rows: Seq<JsonV>, j: int, r: int)
    requires
        0 <= j < fields.len(),
        0 <= r < rows.len(),
        decode_cell_spec(fields[j], rows[r]) is Err,
    ensures
        decode_cols_spec(fields, rows) is Err,
    decreases j,
{
    if j == 0 {
        if supported_decode(fields[0].dtype) {
            lemma_col_error_fails(fields[0], rows, r);
        }
    } else {
        if decode_col_spec(fields[0], rows) is Ok {
            lemma_cols_error_fails(fields.drop_first(), rows, j - 1, r);
        }
    }
}

/// An array entry of the wrong length on a fixed-size-list field
/// fails the whole batch.
pub proof fn lemma_wrong_arity_fails_batch(s: TableSchemaV, rows: Seq<JsonV>, j: int, r: int)
    requires
        0 <= j < s.fields.len(),
        0 <= r < rows.len(),
        s.fields[j].dtype matches LogicalType::FixedSizeList(_, d) && match lookup(
            rows[r],
            s.fields[j].name,
        ) {
            Some(JsonV::Arr(es)) => es.len() != d || d < 0,
            _ => false,
        },
    ensures
        decode_rows_spec(s, rows) is Err,
{
    lemma_cell_error_fails_batch(s, rows, j, r);
}

/// Decode one row's cell for a field.
fn decode_cell(f: &Field, row: &JsonValue) -> (r: Result<Cell, DecodeError>)
    requires
        supported_decode(f.dtype),
    ensures
        match r {
            Ok(c) => decode_cell_spec(f.deep_view(), jview(*row)) == Ok::<CellV, DecodeErrV>(
                cview(c),
            ),
            Err(e) => decode_cell_spec(f.deep_view(), jview(*row)) == Err::<CellV, DecodeErrV>(
                e.deep_view(),
            ),
        },
{
    let entry = row.get(&f.name);
    match f.dtype {
        LogicalType::Int8 => match entry {
            Some(JsonValue::Num(NumLit::Int(i))) => {
                let i = *i;
                if i8::MIN as i64 <= i && i <= i8::MAX as i64 {
                    Ok(Cell::I8(i as i8))
                } else {
                    Err(DecodeError::OutOfRange {
                        field: f.name.clone(),
                        value: i,
                        dtype: LogicalType::Int8,
                    })
                }
            },
            Some(JsonValue::Num(_)) => Err(DecodeError::InvalidNumber { field: f.name.clone() }),
            Some(JsonValue::Null) => if f.nullable {
                Ok(Cell::Null)
            } else {
                Err(DecodeError::NotNumber { field: f.name.clone() })
            },
            Some(_) => Err(DecodeError::NotNumber { field: f.name.clone() }),
            None => if f.nullable {
                Ok(Cell::Null)
            } else {
                Err(DecodeError::Missing { field: f.name.clone() })
            },
        },
        LogicalType::Int16 => match entry {
            Some(JsonValue::Num(NumLit::Int(i))) => {
                let i = *i;
                if i16::MIN as i64 <= i && i <= i16::MAX as i64 {
                    Ok(Cell::I16(i as i16))
                } else {
                    Err(DecodeError::OutOfRange {
                        field: f.name.clone(),
                        value: i,
                        dtype: LogicalType::Int16,
                    })
                }
            },
            Some(JsonValue::Num(_)) => Err(DecodeError::InvalidNumber { field: f.name.clone() }),
            Some(JsonValue::Null) => if f.nullable {
                Ok(Cell::Null)
            } else {
                Err(DecodeError::NotNumber { field: f.name.clone() })
            },
            Some(_) => Err(DecodeError::NotNumber { field: f.name.clone() }),
            None => if f.nullable {
                Ok(Cell::Null)
            } else {
                Err(DecodeError::Missing { field: f.name.clone() })
            },
        },
        LogicalType::Int32 => match entry {
            Some(JsonValue::Num(NumLit::Int(i))) => {
                let i = *i;
                if i32::MIN as i64 <= i && i <= i32::MAX as i64 {
                    Ok(Cell::I32(i as i32))
                } else {
                    Err(DecodeError::OutOfRange {
                        field: f.name.clone(),
                        value: i,
                        dtype: LogicalType::Int32,
                    })
                }
            },
            Some(JsonValue::Num(_)) => Err(DecodeError::InvalidNumber { field: f.name.clone() }),
            Some(JsonValue::Null) => if f.nullable {
                Ok(Cell::Null)
            } else {
                Err(DecodeError::NotNumber { field: f.name.clone() })
            },
            Some(_) => Err(DecodeError::NotNumber { field: f.name.clone() }),
            None => if f.nullable {
                Ok(Cell::Null)
            } else {
                Err(DecodeError::Missing { field: f.name.clone() })
            },
        },
        LogicalType::Int64 => match entry {
            Some(JsonValue::Num(NumLit::Int(i))) => Ok(Cell::I64(*i)),
            Some(JsonValue::Num(_)) => Err(DecodeError::InvalidNumber { field: f.name.clone() }),
            Some(JsonValue::Null) => if f.nullable {
                Ok(Cell::Null)
            } else {
                Err(DecodeError::NotNumber { field: f.name.clone() })
            },
            Some(_) => Err(DecodeError::NotNumber { field: f.name.clone() }),
            None => if f.nullable {
                Ok(Cell::Null)
            } else {
                Err(DecodeError::Missing { field: f.name.clone() })
            },
        },
        LogicalType::Float16 | LogicalType::Float32 | LogicalType::Float64 => match entry {
            Some(JsonValue::Num(l)) => Ok(Cell::Num(l.dup())),
            Some(JsonValue::Null) => if f.nullable {
                Ok(Cell::Null)
            } else {
                Err(DecodeError::NotNumber { field: f.name.clone() })
            },
            Some(_) => Err(DecodeError::NotNumber { field: f.name.clone() }),
            None => if f.nullable {
                Ok(Cell::Null)
            } else {
                Err(DecodeError::Missing { field: f.name.clone() })
            },
        },
        LogicalType::Boolean => match entry {
            Some(JsonValue::Bool(b)) => Ok(Cell::Bool(*b)),
            Some(JsonValue::Null) => if f.nullable {
                Ok(Cell::Null)
            } else {
                Err(DecodeError::NotBool { field: f.name.clone() })
            },
            Some(_) => Err(DecodeError::NotBool { field: f.name.clone() }),
            None => if f.nullable {
                Ok(Cell::Null)
            } else {
                Err(DecodeError::Missing { field: f.name.clone() })
            },
        },
        LogicalType::Utf8 => match entry {
            Some(JsonValue::Str(s)) => Ok(Cell::Str(s.clone())),
            Some(JsonValue::Null) => if f.nullable {
                Ok(Cell::Null)
            } else {
                Err(DecodeError::NotString { field: f.name.clone() })
            },
            Some(_) => Err(DecodeError::NotString { field: f.name.clone() }),
            None => if f.nullable {
                Ok(Cell::Null)
            } else {
                Err(DecodeError::Missing { field: f.name.clone() })
            },
        },
        LogicalType::FixedSizeList(_, d) => match entry {
            Some(v) => match v {
                JsonValue::Arr(es) => {
                    let ghost esv = jview(*v)->Arr_0;
                    proof {
                        lemma_jview_seq(es@);
                    }
                    if d < 0 || es.len() != d as usize {
                        return Err(DecodeError::WrongArity {
                            field: f.name.clone(),
                            expected: d,
                            got: es.len(),
                        });
                    }
                    let n = es.len();
                    let mut cells: Vec<Cell> = Vec::new();
                    let mut k: usize = 0;
                    while k < n
                        invariant
                            n == es@.len(),
                            k <= n,
                            esv == jview_seq(es@),
                            esv.len() == n,
                            forall|m: int| 0 <= m < n ==> #[trigger] esv[m] == jview(es@[m]),
                            cells@.len() == k,
                            forall|m: int| 0 <= m < k ==> (#[trigger] esv[m]) is Num,
                            forall|m: int|
                                0 <= m < k ==> cview(#[trigger] cells@[m]) == CellV::Num(
                                    esv[m]->Num_0,
                                ),
                            decode_cell_spec(f.deep_view(), jview(*row)) == decode_entry_spec(
                                f.deep_view(),
                                Some(JsonV::Arr(esv)),
                            ),
                            decode_entry_spec(f.deep_view(), Some(JsonV::Arr(esv))) == (
                            if !all_nums(esv) {
                                Err::<CellV, DecodeErrV>(DecodeErrV::BadElem(f.deep_view().name))
                            } else {
                                Ok::<CellV, DecodeErrV>(CellV::Arr(elem_cells(esv)))
                            }),
                        decreases n - k,
                    {
                        match &es[k] {
                            JsonValue::Num(l) => {
                                cells.push(Cell::Num(l.dup()));
                            },
                            _ => {
                                proof {
                                    assert(!(esv[k as int] is Num));
                                    assert(!all_nums(esv));
                                }
                                return Err(DecodeError::BadElem { field: f.name.clone() });
                            },
                        }
                        k += 1;
                    }
                    proof {
                        assert(all_nums(esv));
                        lemma_cview_seq(cells@);
                        assert(cview_seq(cells@) =~= elem_cells(esv));
                    }
                    Ok(Cell::Arr(cells))
                },
                JsonValue::Null => if f.nullable {
                    Ok(Cell::Null)
                } else {
                    Err(DecodeError::NotArray { field: f.name.clone() })
                },
                _ => Err(DecodeError::NotArray { field: f.name.clone() }),
            },
            None => if f.nullable {
                Ok(Cell::Null)
            } else {
                Err(DecodeError::Missing { field: f.name.clone() })
            },
        },
        _ => Err(DecodeError::UnsupportedType { dtype: f.dtype }),
    }
}

/// Decode one field's column over all rows.
fn decode_col(f: &Field, rows: &Vec<JsonValue>) -> (r: Result<Vec<Cell>, DecodeError>)
    ensures
        match r {
            Ok(col) => decode_col_spec(f.deep_view(), jview_seq(rows@)) == Ok::<
                Seq<CellV>,
                DecodeErrV,
            >(cview_seq(col@)) && col@.len() == rows@.len(),
            Err(e) => decode_col_spec(f.deep_view(), jview_seq(rows@)) == Err::<
                Seq<CellV>,
                DecodeErrV,
            >(e.deep_view()),
        },
{
    let supported: bool = match f.dtype {
        LogicalType::Binary => false,
        LogicalType::Other => false,
        _ => true,
    };
    if !supported {
        return Err(DecodeError::UnsupportedType { dtype: f.dtype });
    }
    let ghost rv = jview_seq(rows@);
    proof {
        lemma_jview_seq(rows@);
    }
    let n = rows.len();
    let mut col: Vec<Cell> = Vec::new();
    let mut i: usize = 0;
    while i < n
        invariant
            supported_decode(f.dtype),
            n == rows@.len(),
            i <= n,
            rv == jview_seq(rows@),
            rv.len() == n,
            forall|j: int| 0 <= j < n ==> #[trigger] rv[j] == jview(rows@[j]),
            col@.len() == i,
            forall|r: int| 0 <= r < i ==> decode_cell_spec(f.deep_view(), #[trigger] rv[r]) == Ok::<
                CellV,
                DecodeErrV,
            >(cview(col@[r])),
        decreases n - i,
    {
        match decode_cell(f, &rows[i]) {
            Ok(c) => {
                col.push(c);
            },
            Err(e) => {
                proof {
                    assert(forall|r: int|
                        0 <= r < i ==> col.deep_view()[r] == cview(#[trigger] col@[r]));
                    lemma_decode_col_rows_split(f.deep_view(), rv, col.deep_view(), i as int);
                    assert(rv.skip(i as int)[0] == rv[i as int]);
                }
                return Err(e);
            },
        }
        i += 1;
    }
    proof {
        assert(forall|r: int| 0 <= r < n ==> col.deep_view()[r] == cview(#[trigger] col@[r]));
        lemma_decode_col_rows_split(f.deep_view(), rv, col.deep_view(), n as int);
        assert(rv.skip(n as int) =~= Seq::empty());
        assert(col.deep_view() + Seq::<CellV>::empty() =~= col.deep_view());
        lemma_cview_seq(col@);
        assert(col.deep_view() =~= cview_seq(col@));
    }
    Ok(col)
}

/// Decode a sequence of JSON row objects into a batch of `schema`'s
/// shape.  Succeeds exactly when the schema has at least one field,
/// every field's type is supported, and every row's entry for every
/// field matches that field; the batch then holds one column per
/// field with one cell per row.  Any rejection fails the whole batch.
pub fn decode_rows(schema: &TableSchema, rows: &Vec<JsonValue>) -> (r: Result<Batch, DecodeError>)
    ensures
        match r {
            Ok(b) => decode_rows_spec(schema.deep_view(), jview_seq(rows@)) == Ok::<
                BatchV,
                DecodeErrV,
            >(b.deep_view()) && b.deep_view().wf() && b.deep_view().schema == schema.deep_view()
                && b.deep_view().nrows == rows@.len(),
            Err(e) => decode_rows_spec(schema.deep_view(), jview_seq(rows@)) == Err::<
                BatchV,
                DecodeErrV,
            >(e.deep_view()),
        },
{
    proof {
        lemma_jview_seq(rows@);
    }
    if schema.fields.len() == 0 {
        return Err(DecodeError::NoColumns);
    }
    let ghost rv = jview_seq(rows@);
    let ghost fv = schema.deep_view().fields;
    let nf = schema.fields.len();
    let mut cols: Vec<Vec<Cell>> = Vec::new();
    let mut j: usize = 0;
    while j < nf
        invariant
            nf == schema.fields@.len(),
            nf > 0,
            j <= nf,
            rv == jview_seq(rows@),
            fv == schema.deep_view().fields,
            fv.len() == nf,
            cols@.len() == j,
            forall|m: int| 0 <= m < j ==> decode_col_spec(#[trigger] fv[m], rv) == Ok::<
                Seq<CellV>,
                DecodeErrV,
            >(cview_seq(cols@[m]@)),
        decreases nf - j,
    {
        proof {
            assert(fv[j as int] == schema.fields@[j as int].deep_view());
        }
        match decode_col(&schema.fields[j], rows) {
            Ok(col) => {
                cols.push(col);
            },
            Err(e) => {
                proof {
                    assert forall|m: int| 0 <= m < j implies cols.deep_view()[m] == cview_seq(
                        #[trigger] cols@[m]@,
                    ) by {
                        lemma_cview_seq(cols@[m]@);
                        assert(cols.deep_view()[m] =~= cview_seq(cols@[m]@));
                    }
                    lemma_decode_cols_split(fv, rv, cols.deep_view(), j as int);
                    assert(fv.skip(j as int)[0] == fv[j as int]);
                }
                return Err(e);
            },
        }
        j += 1;
    }
    proof {
        assert forall|m: int| 0 <= m < nf implies cols.deep_view()[m] == cview_seq(
            #[trigger] cols@[m]@,
        ) by {
            lemma_cview_seq(cols@[m]@);
            assert(cols.deep_view()[m] =~= cview_seq(cols@[m]@));
        }
        lemma_decode_cols_split(fv, rv, cols.deep_view(), nf as int);
        assert(fv.skip(nf as int) =~= Seq::empty());
        assert(cols.deep_view() + Seq::<Seq<CellV>>::empty() =~= cols.deep_view());
        lemma_decode_wf(schema.deep_view(), rv);
    }
    let nrows = rows.len();
    Ok(Batch { schema: schema.dup(), cols, nrows })
}

/// Encode one cell into its JSON value.
pub fn encode_cell(c: &Cell) -> (r: JsonValue)
    ensures
        jview(r) == encode_cell_spec(cview(*c)),
    decreases *c,
{
    match c {
        Cell::Null => JsonValue::Null,
        Cell::I8(v) => JsonValue::Num(NumLit::Int(*v as i64)),
        Cell::I16(v) => JsonValue::Num(NumLit::Int(*v as i64)),
        Cell::I32(v) => JsonValue::Num(NumLit::Int(*v as i64)),
        Cell::I64(v) => JsonValue::Num(NumLit::Int(*v)),
        Cell::Num(l) => JsonValue::Num(l.dup()),
        Cell::Bool(b) => JsonValue::Bool(*b),
        Cell::Str(s) => JsonValue::Str(s.clone()),
        Cell::Tag(s) => JsonValue::Str(s.clone()),
        Cell::Arr(es) => {
            let n = es.len();
            let mut out: Vec<JsonValue> = Vec::new();
            let mut k: usize = 0;
            while k < n
                invariant
                    *c == Cell::Arr(*es),
                    n == es@.len(),
                    k <= n,
                    out@.len() == k,
                    forall|m: int|
                        0 <= m < k ==> jview(#[trigger] out@[m]) == encode_cell_spec(
                            cview(es@[m]),
                        ),
                decreases n - k,
            {
                proof {
                    assert(*c == Cell::Arr(*es));
                    assert(decreases_to!(*c => (*c)->Arr_0));
                    assert((*c)->Arr_0 == *es);
                    assert(decreases_to!(*es => es@));
                    assert(decreases_to!(es@ => es@[k as int]));
                }
                let e = encode_cell(&es[k]);
                out.push(e);
                k += 1;
            }
            proof {
                lemma_jview_seq(out@);
                lemma_cview_seq(es@);
                lemma_encode_cells(cview_seq(es@));
                assert(jview_seq(out@) =~= encode_cells_spec(cview_seq(es@)));
            }
            JsonValue::Arr(out)
        },
    }
}

/// Encode one row of a well-shaped batch into its JSON object.
fn encode_row(b: &Batch, r: usize) -> (out: JsonValue)
    requires
        b.deep_view().well_shaped(),
        r < b.deep_view().nrows,
    ensures
        jview(out) == encode_row_spec(b.deep_view().schema.fields, b.deep_view().cols, r as int),
{
    let ghost fv = b.deep_view().schema.fields;
    let ghost cv = b.deep_view().cols;
    let nf = b.schema.fields.len();
    let mut entries: Vec<(String, JsonValue)> = Vec::new();
    let mut j: usize = 0;
    while j < nf
        invariant
            fv == b.deep_view().schema.fields,
            cv == b.deep_view().cols,
            b.deep_view().well_shaped(),
            r < b.deep_view().nrows,
            nf == b.schema.fields@.len(),
            j <= nf,
            entries@.len() == j,
            forall|m: int|
                0 <= m < j ==> (#[trigger] entries@[m]).0@ == fv[m].name && jview(entries@[m].1)
                    == encode_cell_spec(cv[m][r as int]),
        decreases nf - j,
    {
        proof {
            assert(cv[j as int] == b.cols@[j as int].deep_view());
            assert(cv[j as int][r as int] == cview(b.cols@[j as int]@[r as int]));
        }
        let v = encode_cell(&b.cols[j][r]);
        entries.push((b.schema.fields[j].name.clone(), v));
        j += 1;
    }
    let out = JsonValue::Obj(entries);
    proof {
        crate::json::lemma_jview_entries(entries@);
        assert(jview(out)->Obj_0 =~= encode_row_spec(fv, cv, r as int)->Obj_0);
    }
    out
}

/// Encode a well-shaped batch into JSON row objects, one object per
/// row, one entry per field in field order, nulls encoding to JSON
/// null.
pub fn encode_rows(b: &Batch) -> (out: Vec<JsonValue>)
    requires
        b.deep_view().well_shaped(),
    ensures
        jview_seq(out@) == encode_rows_spec(b.deep_view()),
        out@.len() == b.deep_view().nrows,
{
    let n = b.nrows;
    let mut out: Vec<JsonValue> = Vec::new();
    let mut r: usize = 0;
    while r < n
        invariant
            b.deep_view().well_shaped(),
            n == b.deep_view().nrows,
            r <= n,
            out@.len() == r,
            forall|m: int|
                0 <= m < r ==> jview(#[trigger] out@[m]) == encode_row_spec(
                    b.deep_view().schema.fields,
                    b.deep_view().cols,
                    m,
                ),
        decreases n - r,
    {
        let row = encode_row(b, r);
        out.push(row);
        r += 1;
    }
    proof {
        lemma_jview_seq(out@);
        assert(jview_seq(out@) =~= encode_rows_spec(b.deep_view()));
    }
    out
}

} // verus!
