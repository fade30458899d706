//! Query-side decisions: one configuration document selects exactly
//! one search mode.
//!
//! A well-formed `"vector_search"` entry selects nearest-neighbor
//! search with its column, vector and `k`; a `"fts_search"` entry is
//! recognised and rejected as unsupported; anything else is a plain
//! scan with optional projection, limit, offset and filter.  A
//! malformed `"vector_search"` entry falls through to the plain path
//! rather than failing.
use vstd::prelude::*;
use vstd::string::StringExecFns;
use crate::batch::{Batch, BatchV};
use crate::codec::{all_nums, encode_rows, encode_rows_spec};
use crate::envelope::{wire_text, Envelope};
use crate::json::{
    jview, jview_seq, jv_as_arr, jv_as_str, jv_as_u64, lemma_jview_seq, lookup, JsonV, JsonValue,
    NumLit, NumV,
};

verus! {

/// A nearest-neighbor search: the vector column, the probe vector's
/// numeric literals, `k`, the row limit, and the optional filter and
/// projection.
#[derive(Clone, PartialEq, Debug)]
pub struct VectorQuery {
    pub column: String,
    pub vector: Vec<NumLit>,
    pub k: u64,
    pub limit: u64,
    pub filter: Option<String>,
    pub columns: Option<Vec<String>>,
}

/// Mathematical image of `VectorQuery`.
pub ghost struct VectorQueryV {
    pub column: Seq<char>,
    pub vector: Seq<NumV>,
    pub k: u64,
    pub limit: u64,
    pub filter: Option<Seq<char>>,
    pub columns: Option<Seq<Seq<char>>>,
}

/// A plain scan with optional projection, limit, offset and filter.
#[derive(Clone, PartialEq, Debug)]
pub struct PlainQuery {
    pub columns: Option<Vec<String>>,
    pub limit: Option<u64>,
    pub offset: Option<u64>,
    pub filter: Option<String>,
}

/// Mathematical image of `PlainQuery`.
pub ghost struct PlainQueryV {
    pub columns: Option<Seq<Seq<char>>>,
    pub limit: Option<u64>,
    pub offset: Option<u64>,
    pub filter: Option<Seq<char>>,
}

/// The one search mode a configuration selects.
#[derive(Clone, PartialEq, Debug)]
pub enum QueryPlan {
    Vector(VectorQuery),
    Plain(PlainQuery),
}

/// Mathematical image of `QueryPlan`.
pub ghost enum QueryPlanV {
    Vector(VectorQueryV),
    Plain(PlainQueryV),
}

impl DeepView for VectorQuery {
    type V = VectorQueryV;

    open spec fn deep_view(&self) -> VectorQueryV {
        VectorQueryV {
            column: self.column@,
            vector: self.vector.deep_view(),
            k: self.k,
            limit: self.limit,
            filter: self.filter.deep_view(),
            columns: self.columns.deep_view(),
        }
    }
}

impl DeepView for PlainQuery {
    type V = PlainQueryV;

    open spec fn deep_view(&self) -> PlainQueryV {
        PlainQueryV {
            columns: self.columns.deep_view(),
            limit: self.limit,
            offset: self.offset,
            filter: self.filter.deep_view(),
        }
    }
}

impl DeepView for QueryPlan {
    type V = QueryPlanV;

    open spec fn deep_view(&self) -> QueryPlanV {
        match self {
            QueryPlan::Vector(v) => QueryPlanV::Vector(v.deep_view()),
            QueryPlan::Plain(p) => QueryPlanV::Plain(p.deep_view()),
        }
    }
}

/// Why a query configuration was rejected.
pub ghost enum QueryErrV {
    /// Full-text search is recognised but not supported.
    FtsUnsupported,
    /// A probe vector element is not a number.
    BadVector,
}

/// The failure message for a query rejection.
pub open spec fn query_err_msg(e: QueryErrV) -> Seq<char> {
    match e {
        QueryErrV::FtsUnsupported => "Failed to execute query: Full-text search is not currently supported"@,
        QueryErrV::BadVector => "Failed to execute query: Failed to parse vector: Invalid vector element"@,
    }
}

/// The string entry at `key`, if any.
pub open spec fn str_at(v: JsonV, key: Seq<char>) -> Option<Seq<char>> {
    match lookup(v, key) {
        Some(x) => jv_as_str(x),
        None => None,
    }
}

/// The unsigned-integer entry at `key`, if any.
pub open spec fn u64_at(v: JsonV, key: Seq<char>) -> Option<u64> {
    match lookup(v, key) {
        Some(x) => jv_as_u64(x),
        None => None,
    }
}

/// The array entry at `key`, if any.
pub open spec fn arr_at(v: JsonV, key: Seq<char>) -> Option<Seq<JsonV>> {
    match lookup(v, key) {
        Some(x) => jv_as_arr(x),
        None => None,
    }
}

/// The string elements of a sequence, non-strings skipped.
pub open spec fn str_elems(s: Seq<JsonV>) -> Seq<Seq<char>>
    decreases s.len(),
{
    if s.len() == 0 {
        Seq::empty()
    } else {
        str_elems(s.drop_last()) + (match s.last() {
            JsonV::Str(x) => seq![x],
            _ => Seq::empty(),
        })
    }
}

/// The projection a configuration selects: the string elements of
/// its `"columns"` array, taken only when at least one remains.
pub open spec fn selected_columns(config: JsonV) -> Option<Seq<Seq<char>>> {
    match arr_at(config, "columns"@) {
        Some(a) => if str_elems(a).len() == 0 {
            None
        } else {
            Some(str_elems(a))
        },
        None => None,
    }
}

/// The numeric literals of a probe vector whose elements are all
/// numbers.
pub open spec fn vector_nums(es: Seq<JsonV>) -> Seq<NumV> {
    Seq::new(es.len(), |k: int| es[k]->Num_0)
}

/// The well-formed `"vector_search"` entry, if the configuration has
/// one: its column, probe vector and `k`, all three present and
/// well-typed.
pub open spec fn vector_attempt(config: JsonV) -> Option<(Seq<char>, Seq<JsonV>, u64)> {
    match lookup(config, "vector_search"@) {
        Some(vs) => match (str_at(vs, "column"@), arr_at(vs, "vector"@), u64_at(vs, "k"@)) {
            (Some(col), Some(arr), Some(k)) => Some((col, arr, k)),
            _ => None,
        },
        None => None,
    }
}

/// Whether the configuration carries a well-formed `"fts_search"`
/// entry: a column and a query, both strings.
pub open spec fn fts_attempt(config: JsonV) -> bool {
    match lookup(config, "fts_search"@) {
        Some(fs) => str_at(fs, "column"@) is Some && str_at(fs, "query"@) is Some,
        None => false,
    }
}

/// The one search mode a configuration document selects, or its
/// rejection: a well-formed vector search wins, full-text search is
/// rejected as unsupported, and everything else is a plain scan.
pub open spec fn plan_query_spec(config: JsonV) -> Result<QueryPlanV, QueryErrV> {
    match vector_attempt(config) {
        Some((col, arr, k)) => if !all_nums(arr) {
            Err(QueryErrV::BadVector)
        } else {
            Ok(
                QueryPlanV::Vector(
                    VectorQueryV {
                        column: col,
                        vector: vector_nums(arr),
                        k,
                        limit: match u64_at(config, "limit"@) {
                            Some(l) => l,
                            None => k,
                        },
                        filter: str_at(config, "where"@),
                        columns: selected_columns(config),
                    },
                ),
            )
        },
        None => if fts_attempt(config) {
            Err(QueryErrV::FtsUnsupported)
        } else {
            Ok(
                QueryPlanV::Plain(
                    PlainQueryV {
                        columns: selected_columns(config),
                        limit: u64_at(config, "limit"@),
                        offset: u64_at(config, "offset"@),
                        filter: str_at(config, "where"@),
                    },
                ),
            )
        },
    }
}

/// The string entry at `key`, copied out.
fn get_str(v: &JsonValue, key: &str) -> (r: Option<String>)
    ensures
        match r {
            Some(s) => str_at(jview(*v), key@) == Some(s@),
            None => str_at(jview(*v), key@) is None,
        },
{
    let k = String::from_str(key);
    match v.get(&k) {
        Some(x) => match x.as_str() {
            Some(s) => Some(s.clone()),
            None => None,
        },
        None => None,
    }
}

/// The unsigned-integer entry at `key`.
fn get_u64(v: &JsonValue, key: &str) -> (r: Option<u64>)
    ensures
        r == u64_at(jview(*v), key@),
{
    let k = String::from_str(key);
    match v.get(&k) {
        Some(x) => x.as_u64(),
        None => None,
    }
}

/// The string elements of the array at `"columns"`, when at least
/// one remains.
fn get_selected_columns(config: &JsonValue) -> (r: Option<Vec<String>>)
    ensures
        match r {
            Some(cols) => selected_columns(jview(*config)) == Some(cols.deep_view()),
            None => selected_columns(jview(*config)) is None,
        },
{
    let k = String::from_str("columns");
    let arr: &Vec<JsonValue> = match config.get(&k) {
        Some(x) => match x.as_arr() {
            Some(a) => a,
            None => {
                return None;
            },
        },
        None => {
            return None;
        },
    };
    let ghost av = jview_seq(arr@);
    proof {
        lemma_jview_seq(arr@);
        assert(av.take(0) =~= Seq::empty());
    }
    let n = arr.len();
    let mut cols: Vec<String> = Vec::new();
    let mut i: usize = 0;
    while i < n
        invariant
            n == arr@.len(),
            i <= n,
            av == jview_seq(arr@),
            av.len() == n,
            forall|j: int| 0 <= j < n ==> #[trigger] av[j] == jview(arr@[j]),
            cols.deep_view() == str_elems(av.take(i as int)),
        decreases n - i,
    {
        proof {
            assert(av.take(i + 1).drop_last() =~= av.take(i as int));
            assert(av.take(i + 1).last() == av[i as int]);
        }
        match &arr[i] {
            JsonValue::Str(s) => {
                cols.push(s.clone());
                proof {
                    assert(cols.deep_view() =~= str_elems(av.take(i + 1)));
                }
            },
            _ => {
                proof {
                    assert(cols.deep_view() =~= str_elems(av.take(i + 1)));
                }
            },
        }
        i += 1;
    }
    proof {
        assert(av.take(n as int) =~= av);
    }
    if cols.len() == 0 {
        None
    } else {
        Some(cols)
    }
}

/// The one search mode this configuration selects.  Succeeds with a
/// vector search exactly when a well-formed `"vector_search"` entry
/// has an all-numeric probe vector; rejects a recognised full-text
/// search as unsupported; and otherwise yields the plain scan with
/// whatever projection, limit, offset and filter the configuration
/// carries.
pub fn plan_query(config: &JsonValue) -> (r: Result<QueryPlan, Envelope>)
    ensures
        match r {
            Ok(plan) => plan_query_spec(jview(*config)) == Ok::<QueryPlanV, QueryErrV>(
                plan.deep_view(),
            ),
            Err(env) => plan_query_spec(jview(*config)) matches Err(e) && env.deep_view().wf()
                && !env.deep_view().success && env.deep_view().message == Some(
                wire_text(query_err_msg(e)),
            ),
        },
{
    let kvs = String::from_str("vector_search");
    let vs_entry = config.get(&kvs);
    if let Some(vs) = vs_entry {
        let col = get_str(vs, "column");
        let karr = String::from_str("vector");
        let arr_entry = match vs.get(&karr) {
            Some(x) => x.as_arr(),
            None => None,
        };
        let kk = get_u64(vs, "k");
        if let (Some(column), Some(arr), Some(k)) = (col, arr_entry, kk) {
            let ghost av = jview_seq(arr@);
            proof {
                lemma_jview_seq(arr@);
            }
            let n = arr.len();
            let mut vector: Vec<NumLit> = Vec::new();
            let mut i: usize = 0;
            while i < n
                invariant
                    n == arr@.len(),
                    i <= n,
                    vector_attempt(jview(*config)) matches Some(t) && t.1 == av,
                    av == jview_seq(arr@),
                    av.len() == n,
                    forall|j: int| 0 <= j < n ==> #[trigger] av[j] == jview(arr@[j]),
                    vector@.len() == i,
                    forall|j: int| 0 <= j < i ==> (#[trigger] av[j]) is Num,
                    forall|j: int|
                        0 <= j < i ==> (#[trigger] vector@[j]).deep_view() == av[j]->Num_0,
                decreases n - i,
            {
                match &arr[i] {
                    JsonValue::Num(l) => {
                        vector.push(l.dup());
                    },
                    _ => {
                        proof {
                            assert(!(av[i as int] is Num));
                            assert(!all_nums(av));
                        }
                        return Err(
                            Envelope::error(
                                String::from_str(
                                    "Failed to execute query: Failed to parse vector: Invalid vector element",
                                ),
                            ),
                        );
                    },
                }
                i += 1;
            }
            proof {
                assert(all_nums(av));
                assert(vector.deep_view() =~= vector_nums(av));
            }
            let limit = match get_u64(config, "limit") {
                Some(l) => l,
                None => k,
            };
            let filter = get_str(config, "where");
            let columns = get_selected_columns(config);
            return Ok(
                QueryPlan::Vector(VectorQuery { column, vector, k, limit, filter, columns }),
            );
        }
    }
    let kfs = String::from_str("fts_search");
    if let Some(fs) = config.get(&kfs) {
        let c = get_str(fs, "column");
        let q = get_str(fs, "query");
        if c.is_some() && q.is_some() {
            return Err(
                Envelope::error(
                    String::from_str(
                        "Failed to execute query: Full-text search is not currently supported",
                    ),
                ),
            );
        }
    }
    let columns = get_selected_columns(config);
    let limit = get_u64(config, "limit");
    let offset = get_u64(config, "offset");
    let filter = get_str(config, "where");
    Ok(QueryPlan::Plain(PlainQuery { columns, limit, offset, filter }))
}

/// The rows of a result batch sequence, batch after batch.
pub open spec fn concat_rows(batches: Seq<BatchV>) -> Seq<JsonV>
    decreases batches.len(),
{
    if batches.len() == 0 {
        Seq::empty()
    } else {
        concat_rows(batches.drop_last()) + encode_rows_spec(batches.last())
    }
}

/// Encode the result batches of a query into one list of JSON row
/// objects, batch after batch, row after row.
pub fn encode_result_rows(batches: &Vec<Batch>) -> (out: Vec<JsonValue>)
    requires
        forall|j: int|
            0 <= j < batches@.len() ==> (#[trigger] batches@[j]).deep_view().well_shaped(),
    ensures
        jview_seq(out@) == concat_rows(batches.deep_view()),
{
    let ghost bv = batches.deep_view();
    proof {
        assert(bv.take(0) =~= Seq::empty());
    }
    let n = batches.len();
    let mut out: Vec<JsonValue> = Vec::new();
    let mut i: usize = 0;
    while i < n
        invariant
            n == batches@.len(),
            i <= n,
            bv == batches.deep_view(),
            bv.len() == n,
            forall|j: int| 0 <= j < n ==> #[trigger] bv[j] == batches@[j].deep_view(),
            forall|j: int|
                0 <= j < n ==> (#[trigger] batches@[j]).deep_view().well_shaped(),
            jview_seq(out@) == concat_rows(bv.take(i as int)),
        decreases n - i,
    {
        let mut rows = encode_rows(&batches[i]);
        proof {
            lemma_jview_seq(out@);
            lemma_jview_seq(rows@);
            assert(bv.take(i + 1).drop_last() =~= bv.take(i as int));
            assert(bv.take(i + 1).last() == bv[i as int]);
        }
        let ghost old_out = out@;
        let ghost new_rows = rows@;
        out.append(&mut rows);
        proof {
            lemma_jview_seq(out@);
            assert(out@ == old_out + new_rows);
            assert(jview_seq(out@) =~= jview_seq(old_out) + jview_seq(new_rows));
            assert(jview_seq(out@) =~= concat_rows(bv.take(i + 1)));
        }
        i += 1;
    }
    proof {
        assert(bv.take(n as int) =~= bv);
    }
    out
}

} // verus!
