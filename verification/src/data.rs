//! Data-side decisions: turning JSON documents into what the
//! engine's insert, update and delete calls take.
//!
//! An update maps columns to SQL literals: strings are quoted,
//! numbers and booleans pass through unquoted, and JSON null becomes
//! the SQL null literal.  A delete's affected-row count is not
//! reported by the engine; the boundary signals that with a
//! documented sentinel instead of an error.
use vstd::prelude::*;
use vstd::string::StringExecFns;
use crate::batch::{Batch, BatchV};
use crate::codec::{decode_err_msg, decode_rows, decode_rows_spec, DecodeErrV};
use crate::envelope::{wire_text, Envelope};
use crate::json::{jview, jview_seq, lemma_jview_entries, JsonV, JsonValue, NumLit, NumV};
use crate::schema::TableSchema;
use crate::text::{dec_str, i64_to_string, int_str, u64_to_string};

verus! {

/// The sentinel an operation reports when it succeeded but the
/// engine does not say how many rows it touched.
pub const UNKNOWN_COUNT: i64 = -1;

/// The SQL literal for one update value, where the value's shape
/// admits one: strings quoted, numbers and booleans unquoted, null
/// as the SQL null literal.
pub open spec fn literal_spec(v: JsonV) -> Option<Seq<char>> {
    match v {
        JsonV::Str(s) => Some("'"@ + s + "'"@),
        JsonV::Num(NumV::Int(i)) => Some(int_str(i as int)),
        JsonV::Num(NumV::UInt(u)) => Some(dec_str(u as nat)),
        JsonV::Num(NumV::Dec(d)) => Some(d),
        JsonV::Bool(b) => Some(
            if b {
                "true"@
            } else {
                "false"@
            },
        ),
        JsonV::Null => Some("NULL"@),
        _ => None,
    }
}

/// The column-to-literal assignments of an update document, entry by
/// entry, the first column with an inadmissible value rejecting the
/// whole update.
pub open spec fn update_pairs_spec(entries: Seq<(Seq<char>, JsonV)>) -> Result<
    Seq<(Seq<char>, Seq<char>)>,
    Seq<char>,
>
    decreases entries.len(),
{
    if entries.len() == 0 {
        Ok(Seq::empty())
    } else {
        match literal_spec(entries[0].1) {
            Some(lit) => match update_pairs_spec(entries.drop_first()) {
                Ok(rest) => Ok(seq![(entries[0].0, lit)] + rest),
                Err(c) => Err(c),
            },
            None => Err(entries[0].0),
        }
    }
}

/// What an update document asks for: its object entries as
/// column-to-literal assignments.  A document that is not an object
/// describes no update.
pub open spec fn update_assignments_spec(doc: JsonV) -> Result<
    Seq<(Seq<char>, Seq<char>)>,
    Option<Seq<char>>,
> {
    match doc {
        JsonV::Obj(entries) => match update_pairs_spec(entries) {
            Ok(pairs) => Ok(pairs),
            Err(c) => Err(Some(c)),
        },
        _ => Err(None),
    }
}

/// The failure message for an update rejection: either the document
/// was no object, or the named column carried an inadmissible value.
pub open spec fn update_err_msg(bad_column: Option<Seq<char>>) -> Seq<char> {
    match bad_column {
        Some(c) => "Unsupported update value type for column "@ + c,
        None => "Failed to parse updates JSON: expected an object of column values"@,
    }
}

/// A prefix of entries already formatted leaves the rest.
proof fn lemma_update_pairs_split(
    entries: Seq<(Seq<char>, JsonV)>,
    ps: Seq<(Seq<char>, Seq<char>)>,
    i: int,
)
    requires
        0 <= i <= entries.len(),
        ps.len() == i,
        forall|j: int| 0 <= j < i ==> literal_spec((#[trigger] entries[j]).1) == Some(ps[j].1)
            && ps[j].0 == entries[j].0,
    ensures
        update_pairs_spec(entries) == match update_pairs_spec(entries.skip(i)) {
            Ok(rest) => Ok::<Seq<(Seq<char>, Seq<char>)>, Seq<char>>(ps + rest),
            Err(c) => Err::<Seq<(Seq<char>, Seq<char>)>, Seq<char>>(c),
        },
    decreases i,
{
    if i == 0 {
        assert(entries.skip(0) =~= entries);
        assert(ps =~= Seq::<(Seq<char>, Seq<char>)>::empty());
        match update_pairs_spec(entries) {
            Ok(rest) => {
                assert(ps + rest =~= rest);
            },
            Err(_) => {},
        }
    } else {
        lemma_update_pairs_split(entries, ps.take(i - 1), i - 1);
        assert(entries.skip(i - 1).drop_first() =~= entries.skip(i));
        assert(entries.skip(i - 1)[0] == entries[i - 1]);
        match update_pairs_spec(entries.skip(i)) {
            Ok(rest) => {
                assert(ps.take(i - 1) + (seq![ps[i - 1]] + rest) =~= ps + rest);
            },
            Err(_) => {},
        }
    }
}

/// Format one update value as its SQL literal, if its shape admits
/// one.
fn format_literal(v: &JsonValue) -> (r: Option<String>)
    ensures
        match r {
            Some(s) => literal_spec(jview(*v)) == Some(s@),
            None => literal_spec(jview(*v)) is None,
        },
{
    match v {
        JsonValue::Str(s) => {
            let r = String::from_str("'").concat(s.as_str()).concat("'");
            proof {
                assert(r@ =~= literal_spec(jview(*v))->Some_0);
            }
            Some(r)
        },
        JsonValue::Num(NumLit::Int(i)) => Some(i64_to_string(*i)),
        JsonValue::Num(NumLit::UInt(u)) => Some(u64_to_string(*u)),
        JsonValue::Num(NumLit::Dec(d)) => Some(d.clone()),
        JsonValue::Bool(b) => Some(
            if *b {
                String::from_str("true")
            } else {
                String::from_str("false")
            },
        ),
        JsonValue::Null => Some(String::from_str("NULL")),
        _ => None,
    }
}

/// The column-to-literal assignments an update document asks for.
/// Succeeds exactly when the document is an object whose every value
/// is a string, number, boolean or null; otherwise names the first
/// offending column, or none when the document is no object.
pub fn update_assignments(doc: &JsonValue) -> (r: Result<Vec<(String, String)>, Envelope>)
    ensures
        match r {
            Ok(pairs) => update_assignments_spec(jview(*doc)) == Ok::<
                Seq<(Seq<char>, Seq<char>)>,
                Option<Seq<char>>,
            >(pairs.deep_view()),
            Err(env) => update_assignments_spec(jview(*doc)) matches Err(bad)
                && env.deep_view().wf() && !env.deep_view().success && env.deep_view().message
                == Some(wire_text(update_err_msg(bad))),
        },
{
    let entries: &Vec<(String, JsonValue)> = match doc {
        JsonValue::Obj(entries) => entries,
        _ => {
            return Err(Envelope::error(String::from_str(
                "Failed to parse updates JSON: expected an object of column values",
            )));
        },
    };
    let ghost ev = jview(*doc)->Obj_0;
    proof {
        lemma_jview_entries(entries@);
    }
    let n = entries.len();
    let mut pairs: Vec<(String, String)> = Vec::new();
    let mut i: usize = 0;
    while i < n
        invariant
            n == entries@.len(),
            i <= n,
            ev == crate::json::jview_entries(entries@),
            ev.len() == n,
            forall|j: int| 0 <= j < n ==> #[trigger] ev[j] == (
                entries@[j].0@,
                jview(entries@[j].1),
            ),
            update_assignments_spec(jview(*doc)) == match update_pairs_spec(ev) {
                Ok(ps) => Ok::<Seq<(Seq<char>, Seq<char>)>, Option<Seq<char>>>(ps),
                Err(c) => Err::<Seq<(Seq<char>, Seq<char>)>, Option<Seq<char>>>(Some(c)),
            },
            pairs@.len() == i,
            forall|j: int|
                0 <= j < i ==> literal_spec((#[trigger] ev[j]).1) == Some(
                    pairs.deep_view()[j].1,
                ) && pairs.deep_view()[j].0 == ev[j].0,
        decreases n - i,
    {
        match format_literal(&entries[i].1) {
            Some(lit) => {
                pairs.push((entries[i].0.clone(), lit));
            },
            None => {
                proof {
                    lemma_update_pairs_split(ev, pairs.deep_view(), i as int);
                    assert(ev.skip(i as int)[0] == ev[i as int]);
                }
                let env = Envelope::error(
                    String::from_str("Unsupported update value type for column ").concat(
                        entries[i].0.as_str(),
                    ),
                );
                return Err(env);
            },
        }
        i += 1;
    }
    proof {
        lemma_update_pairs_split(ev, pairs.deep_view(), n as int);
        assert(ev.skip(n as int) =~= Seq::empty());
        assert(pairs.deep_view() + Seq::<(Seq<char>, Seq<char>)>::empty() =~= pairs.deep_view());
    }
    Ok(pairs)
}

/// The rows an insert document describes: an array's elements, or
/// the document itself as a single row.
pub open spec fn rows_of_doc(doc: JsonV) -> Seq<JsonV> {
    match doc {
        JsonV::Arr(rows) => rows,
        v => seq![v],
    }
}

/// Turn an insert document into its row list: an array yields its
/// elements, any other value counts as one row.
pub fn doc_to_rows(doc: JsonValue) -> (rows: Vec<JsonValue>)
    ensures
        jview_seq(rows@) == rows_of_doc(jview(doc)),
{
    match doc {
        JsonValue::Arr(rows) => rows,
        v => {
            let mut rows: Vec<JsonValue> = Vec::new();
            proof {
                crate::json::lemma_jview_seq(rows@);
            }
            let ghost gv = jview(v);
            rows.push(v);
            proof {
                crate::json::lemma_jview_seq(rows@);
                assert(jview_seq(rows@) =~= seq![gv]);
            }
            rows
        },
    }
}

/// Build the batch an insert sends, with the row count it reports.
/// Succeeds exactly when decoding does; a rejection carries the
/// decode detail behind the insert failure prefix.
pub fn build_insert(schema: &TableSchema, rows: &Vec<JsonValue>) -> (r: Result<(Batch, i64), Envelope>)
    requires
        rows@.len() <= i64::MAX,
    ensures
        match r {
            Ok((b, n)) => decode_rows_spec(schema.deep_view(), jview_seq(rows@)) == Ok::<
                BatchV,
                DecodeErrV,
            >(b.deep_view()) && n == rows@.len(),
            Err(env) => decode_rows_spec(schema.deep_view(), jview_seq(rows@)) matches Err(e)
                && env.deep_view().wf() && !env.deep_view().success && env.deep_view().message
                == Some(
                wire_text("Failed to convert JSON to RecordBatch: "@ + decode_err_msg(e)),
            ),
        },
{
    match decode_rows(schema, rows) {
        Ok(b) => {
            let n = b.num_rows() as i64;
            Ok((b, n))
        },
        Err(e) => {
            let msg = String::from_str("Failed to convert JSON to RecordBatch: ").concat(
                e.message().as_str(),
            );
            Err(Envelope::error(msg))
        },
    }
}

} // verus!
