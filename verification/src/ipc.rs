//! The binary container path: schemas and record batches cross the
//! boundary as the ecosystem's standard self-describing byte
//! container, read and written by the interchange library.
//!
//! The container values themselves are opaque here; the verified
//! logic decides when the engine is called at all, and accounts for
//! the rows that cross.
use vstd::prelude::*;
use vstd::string::StringExecFns;
use crate::envelope::Envelope;

verus! {

#[verifier::external_type_specification]
#[verifier::external_body]
pub struct ExArrowSchema(arrow_schema::Schema);

/// One record batch as the interchange library holds it.  The value
/// is opaque to the verifier and only carried through; the unverified
/// shell reads `raw` to hand it to the engine.
#[verifier::external_body]
#[derive(Debug)]
pub struct EngineBatch {
    pub raw: arrow_array::RecordBatch,
}

/// Whether these bytes parse as a batch container, reading every
/// batch in it.
pub uninterp spec fn ipc_parses(bytes: Seq<u8>) -> bool;

/// The number of batches a parsing container holds.
pub uninterp spec fn ipc_batch_count(bytes: Seq<u8>) -> nat;

/// Whether these bytes open as a container far enough to yield its
/// schema.
pub uninterp spec fn ipc_schema_parses(bytes: Seq<u8>) -> bool;

/// The schema a parsing container embeds.
pub uninterp spec fn ipc_schema_of(bytes: Seq<u8>) -> arrow_schema::Schema;

/// The row count a record batch carries.
pub uninterp spec fn batch_rows_spec(b: EngineBatch) -> nat;

/// Whether the container writer accepts a schema.  Writing goes to
/// an in-memory buffer, so acceptance is a function of the schema
/// value alone.
pub uninterp spec fn schema_ipc_writes(s: arrow_schema::Schema) -> bool;

/// The container bytes that writing a schema produces.
pub uninterp spec fn schema_ipc_bytes(s: arrow_schema::Schema) -> Seq<u8>;

/// Relies on arrow_ipc's FileReader: reads a batch container out of
/// its bytes, every batch of it, or reports why not.
#[verifier::external_body]
fn ipc_to_batches(bytes: &Vec<u8>) -> (r: Result<Vec<EngineBatch>, String>)
    ensures
        r is Ok <==> ipc_parses(bytes@),
        r matches Ok(bs) ==> bs@.len() == ipc_batch_count(bytes@),
{
    let reader = arrow_ipc::reader::FileReader::try_new(std::io::Cursor::new(bytes.as_slice()), None)
        .map_err(|e| e.to_string())?;
    let batches = reader.collect::<Result<Vec<_>, _>>().map_err(|e| e.to_string())?;
    Ok(batches.into_iter().map(|b| EngineBatch { raw: b }).collect())
}

/// Relies on arrow_ipc's FileReader: reads the schema a container's
/// bytes describe, or reports why not.
#[verifier::external_body]
fn ipc_to_schema(bytes: &Vec<u8>) -> (r: Result<arrow_schema::Schema, String>)
    ensures
        r is Ok <==> ipc_schema_parses(bytes@),
        r matches Ok(s) ==> s == ipc_schema_of(bytes@),
{
    arrow_ipc::reader::FileReader::try_new(std::io::Cursor::new(bytes.as_slice()), None)
        .map(|r| (*r.schema()).clone())
        .map_err(|e| e.to_string())
}

/// Relies on arrow_array::RecordBatch::num_rows.
#[verifier::external_body]
fn batch_num_rows(b: &EngineBatch) -> (r: usize)
    ensures
        r == batch_rows_spec(*b),
{
    b.raw.num_rows()
}

/// Relies on arrow_ipc's FileWriter: writes a schema into its
/// container bytes.
#[verifier::external_body]
fn schema_to_ipc(s: &arrow_schema::Schema) -> (r: Result<Vec<u8>, String>)
    ensures
        r is Ok <==> schema_ipc_writes(*s),
        r matches Ok(v) ==> v@ == schema_ipc_bytes(*s),
{
    let mut buffer = std::io::Cursor::new(Vec::new());
    let mut writer = arrow_ipc::writer::FileWriter::try_new(&mut buffer, s).map_err(|e| e.to_string())?;
    writer.finish().map_err(|e| e.to_string())?;
    drop(writer);
    Ok(buffer.into_inner())
}

/// The rows a batch sequence carries, batch after batch.
pub open spec fn total_rows_spec(batches: Seq<EngineBatch>) -> nat
    decreases batches.len(),
{
    if batches.len() == 0 {
        0
    } else {
        total_rows_spec(batches.drop_last()) + batch_rows_spec(batches.last())
    }
}

/// What ingesting a batch container found: nothing to add, or the
/// batches with the row count the boundary reports.
#[derive(Debug)]
pub enum IpcIngest {
    /// No payload, or a container with no batch: nothing reaches the
    /// engine, and the reported count is zero.
    Empty,
    /// The container's batches, with their total row count.
    Add(Vec<EngineBatch>, i64),
}

/// Ingest the byte payload of a binary insert.  Empty payload and an
/// empty container succeed at once with nothing to add; a container
/// that parses yields its batches and their exact total row count;
/// bytes that do not parse are rejected behind the parse-failure
/// prefix.
pub fn ingest_ipc(bytes: &Vec<u8>) -> (r: Result<IpcIngest, Envelope>)
    ensures
        match r {
            Ok(step) => match step {
                IpcIngest::Empty => bytes@.len() == 0 || (ipc_parses(bytes@) && ipc_batch_count(
                    bytes@,
                ) == 0),
                IpcIngest::Add(batches, n) => ipc_parses(bytes@) && batches@.len()
                    == ipc_batch_count(bytes@) && batches@.len() > 0 && n == total_rows_spec(
                    batches@,
                ) && 0 <= n <= i64::MAX,
            },
            Err(env) => env.deep_view().wf() && !env.deep_view().success && bytes@.len() > 0 && (
            !ipc_parses(bytes@) || ipc_batch_count(bytes@) > 0),
        },
        bytes@.len() == 0 ==> r matches Ok(IpcIngest::Empty),
        bytes@.len() > 0 && !ipc_parses(bytes@) ==> r is Err,
{
    if bytes.len() == 0 {
        return Ok(IpcIngest::Empty);
    }
    let batches = match ipc_to_batches(bytes) {
        Ok(bs) => bs,
        Err(e) => {
            let msg = String::from_str("Failed to parse IPC data: ").concat(e.as_str());
            return Err(Envelope::error(msg));
        },
    };
    if batches.len() == 0 {
        return Ok(IpcIngest::Empty);
    }
    let n = batches.len();
    let mut total: u64 = 0;
    let mut i: usize = 0;
    proof {
        assert(batches@.take(0) =~= Seq::empty());
    }
    while i < n
        invariant
            bytes@.len() > 0,
            ipc_parses(bytes@),
            n == ipc_batch_count(bytes@),
            n > 0,
            n == batches@.len(),
            i <= n,
            total <= i64::MAX,
            total == total_rows_spec(batches@.take(i as int)),
        decreases n - i,
    {
        proof {
            assert(batches@.take(i + 1).drop_last() =~= batches@.take(i as int));
            assert(batches@.take(i + 1).last() == batches@[i as int]);
        }
        let rows = batch_num_rows(&batches[i]);
        if rows as u64 > (i64::MAX as u64) - total {
            let msg = String::from_str(
                "Failed to parse IPC data: batch row count exceeds what the boundary reports",
            );
            return Err(Envelope::error(msg));
        }
        total = total + (rows as u64);
        i += 1;
    }
    proof {
        assert(batches@.take(n as int) =~= batches@);
    }
    Ok(IpcIngest::Add(batches, total as i64))
}

/// Read the schema a binary schema payload describes, for table
/// creation; bytes that do not open as a container are rejected as
/// an invalid schema.
pub fn read_ipc_schema(bytes: &Vec<u8>) -> (r: Result<arrow_schema::Schema, Envelope>)
    ensures
        r is Ok <==> ipc_schema_parses(bytes@),
        r matches Ok(s) ==> s == ipc_schema_of(bytes@),
        r matches Err(env) ==> env.deep_view().wf() && !env.deep_view().success,
{
    match ipc_to_schema(bytes) {
        Ok(s) => Ok(s),
        Err(e) => {
            let msg = String::from_str("Invalid IPC schema: ").concat(e.as_str());
            Err(Envelope::error(msg))
        },
    }
}

/// Write a schema into the container bytes a schema report hands
/// back.
pub fn schema_ipc(s: &arrow_schema::Schema) -> (r: Result<Vec<u8>, Envelope>)
    ensures
        r is Ok <==> schema_ipc_writes(*s),
        r matches Ok(v) ==> v@ == schema_ipc_bytes(*s),
        r matches Err(env) ==> env.deep_view().wf() && !env.deep_view().success,
{
    match schema_to_ipc(s) {
        Ok(v) => Ok(v),
        Err(e) => {
            let msg = String::from_str("Failed to serialize schema to IPC: ").concat(e.as_str());
            Err(Envelope::error(msg))
        },
    }
}

} // verus!
