//! The columnar record batch: per field one column of cells, every
//! column with the same row count.
//!
//! A floating-point column keeps each value as the numeric literal
//! that crossed the wire (`NumLit`); realizing IEEE buffers out of
//! those literals is the business of the unverified shell around the
//! library.
use vstd::prelude::*;
use crate::json::{NumLit, NumV};
use crate::schema::{ElemType, FieldV, LogicalType, TableSchema, TableSchemaV};

verus! {

/// One cell of a column.
#[derive(PartialEq, Debug)]
pub enum Cell {
    /// A null entry.
    Null,
    /// An 8-bit integer column's value.
    I8(i8),
    /// A 16-bit integer column's value.
    I16(i16),
    /// A 32-bit integer column's value.
    I32(i32),
    /// A 64-bit integer column's value.
    I64(i64),
    /// A floating-point column's value: the literal as it crossed the
    /// wire.
    Num(NumLit),
    /// A boolean column's value.
    Bool(bool),
    /// A string column's value.
    Str(String),
    /// A list or fixed-size-list column's value.
    Arr(Vec<Cell>),
    /// A placeholder tag for a value of an unsupported type, seen
    /// only on batches read back from the engine.
    Tag(String),
}

/// Mathematical image of `Cell`.
pub ghost enum CellV {
    Null,
    I8(i8),
    I16(i16),
    I32(i32),
    I64(i64),
    Num(NumV),
    Bool(bool),
    Str(Seq<char>),
    Arr(Seq<CellV>),
    Tag(Seq<char>),
}

/// Image of one cell.
pub open spec fn cview(c: Cell) -> CellV
    decreases c,
{
    match c {
        Cell::Null => CellV::Null,
        Cell::I8(v) => CellV::I8(v),
        Cell::I16(v) => CellV::I16(v),
        Cell::I32(v) => CellV::I32(v),
        Cell::I64(v) => CellV::I64(v),
        Cell::Num(l) => CellV::Num(l.deep_view()),
        Cell::Bool(b) => CellV::Bool(b),
        Cell::Str(s) => CellV::Str(s@),
        Cell::Arr(a) => CellV::Arr(cview_seq(a@)),
        Cell::Tag(s) => CellV::Tag(s@),
    }
}

/// Image of a sequence of cells, elementwise.
pub open spec fn cview_seq(s: Seq<Cell>) -> Seq<CellV>
    decreases s,
{
    if s.len() == 0 {
        Seq::empty()
    } else {
        seq![cview(s[0])] + cview_seq(s.drop_first())
    }
}

/// `cview_seq` is the elementwise image.
pub broadcast proof fn lemma_cview_seq(s: Seq<Cell>)
    ensures
        (#[trigger] cview_seq(s)).len() == s.len(),
        forall|i: int| 0 <= i < s.len() ==> cview_seq(s)[i] == cview(s[i]),
    decreases s,
{
    if s.len() > 0 {
        lemma_cview_seq(s.drop_first());
    }
}

impl DeepView for Cell {
    type V = CellV;

    open spec fn deep_view(&self) -> CellV {
        cview(*self)
    }
}

/// A record batch: a schema and, per field, one column of cells.
#[derive(PartialEq, Debug)]
pub struct Batch {
    pub schema: TableSchema,
    pub cols: Vec<Vec<Cell>>,
    pub nrows: usize,
}

/// Mathematical image of `Batch`.
pub ghost struct BatchV {
    pub schema: TableSchemaV,
    pub cols: Seq<Seq<CellV>>,
    pub nrows: nat,
}

impl DeepView for Batch {
    type V = BatchV;

    open spec fn deep_view(&self) -> BatchV {
        BatchV {
            schema: self.schema.deep_view(),
            cols: self.cols.deep_view(),
            nrows: self.nrows as nat,
        }
    }
}

/// Whether a cell is one that decoding may put into a column of the
/// given field: nulls only on nullable fields, and the value's shape
/// fixed by the field's logical type.
pub open spec fn cell_ok(f: FieldV, c: CellV) -> bool {
    match c {
        CellV::Null => f.nullable,
        CellV::I8(_) => f.dtype == LogicalType::Int8,
        CellV::I16(_) => f.dtype == LogicalType::Int16,
        CellV::I32(_) => f.dtype == LogicalType::Int32,
        CellV::I64(_) => f.dtype == LogicalType::Int64,
        CellV::Num(_) => f.dtype == LogicalType::Float16 || f.dtype == LogicalType::Float32
            || f.dtype == LogicalType::Float64,
        CellV::Bool(_) => f.dtype == LogicalType::Boolean,
        CellV::Str(_) => f.dtype == LogicalType::Utf8,
        CellV::Arr(es) => match f.dtype {
            LogicalType::FixedSizeList(_, d) => d >= 0 && es.len() == d && (forall|k: int|
                0 <= k < es.len() ==> (#[trigger] es[k]) is Num),
            _ => false,
        },
        CellV::Tag(_) => false,
    }
}

impl BatchV {
    /// Shape alone: one column per field, each column with `nrows`
    /// cells.
    pub open spec fn well_shaped(self) -> bool {
        &&& self.cols.len() == self.schema.fields.len()
        &&& forall|j: int| 0 <= j < self.cols.len() ==> (#[trigger] self.cols[j]).len()
            == self.nrows
    }

    /// Well-formedness of a decoded batch: well shaped, with every
    /// cell admissible for its field.
    pub open spec fn wf(self) -> bool {
        &&& self.well_shaped()
        &&& forall|j: int, r: int|
            0 <= j < self.cols.len() && 0 <= r < self.nrows ==> cell_ok(
                self.schema.fields[j],
                #[trigger] self.cols[j][r],
            )
    }
}

impl Batch {
    /// The number of rows the batch holds.
    pub fn num_rows(&self) -> (r: usize)
        ensures
            r == self.deep_view().nrows,
    {
        self.nrows
    }
}

} // verus!
