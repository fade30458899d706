//! Index-side decisions: reading an index creation request, and
//! rendering index listings and statistics back into JSON.
//!
//! A type tag selects among the vector-approximate, scalar and text
//! index families; the engine applies each family's own default
//! tuning.
use vstd::prelude::*;
use vstd::string::StringExecFns;
use crate::envelope::{wire_text, Envelope};
use crate::json::{
    jview, jview_seq, lemma_jview_entries, lemma_jview_seq, num_of_u64,
    num_of_u64_spec, JsonV, JsonValue, NumLit,
};
use crate::text::str_eq;

verus! {

/// The index families a type tag can select.
#[derive(Clone, Copy, PartialEq, Eq, Debug, Structural)]
pub enum IndexKind {
    IvfPq,
    IvfFlat,
    IvfHnswPq,
    IvfHnswSq,
    BTree,
    Bitmap,
    LabelList,
    Fts,
}

/// The family a type tag selects, if any: `"vector"` and `"ivf_pq"`
/// both select the IVF-PQ vector index.
pub open spec fn index_kind_of(s: Seq<char>) -> Option<IndexKind> {
    if s == "vector"@ || s == "ivf_pq"@ {
        Some(IndexKind::IvfPq)
    } else if s == "ivf_flat"@ {
        Some(IndexKind::IvfFlat)
    } else if s == "hnsw_pq"@ {
        Some(IndexKind::IvfHnswPq)
    } else if s == "hnsw_sq"@ {
        Some(IndexKind::IvfHnswSq)
    } else if s == "btree"@ {
        Some(IndexKind::BTree)
    } else if s == "bitmap"@ {
        Some(IndexKind::Bitmap)
    } else if s == "label_list"@ {
        Some(IndexKind::LabelList)
    } else if s == "fts"@ {
        Some(IndexKind::Fts)
    } else {
        None
    }
}

/// The columns an index request names: a JSON array of strings,
/// strictly.
pub open spec fn string_list(v: JsonV) -> Option<Seq<Seq<char>>> {
    match v {
        JsonV::Arr(es) => if forall|k: int| 0 <= k < es.len() ==> (#[trigger] es[k]) is Str {
            Some(Seq::new(es.len(), |k: int| es[k]->Str_0))
        } else {
            None
        },
        _ => None,
    }
}

/// One index creation request: the columns, the family, and an
/// optional name.
#[derive(Clone, PartialEq, Debug)]
pub struct IndexRequest {
    pub columns: Vec<String>,
    pub kind: IndexKind,
    pub name: Option<String>,
}

/// Mathematical image of `IndexRequest`.
pub ghost struct IndexRequestV {
    pub columns: Seq<Seq<char>>,
    pub kind: IndexKind,
    pub name: Option<Seq<char>>,
}

impl DeepView for IndexRequest {
    type V = IndexRequestV;

    open spec fn deep_view(&self) -> IndexRequestV {
        IndexRequestV {
            columns: self.columns.deep_view(),
            kind: self.kind,
            name: self.name.deep_view(),
        }
    }
}

/// Why an index request was rejected.
pub ghost enum IndexErrV {
    /// The columns document is not an array of strings.
    BadColumns,
    /// The type tag selects no family; carries the tag.
    UnsupportedKind(Seq<char>),
}

/// The failure message for an index request rejection.
pub open spec fn index_err_msg(e: IndexErrV) -> Seq<char> {
    match e {
        IndexErrV::BadColumns => "Failed to parse columns JSON: expected an array of strings"@,
        IndexErrV::UnsupportedKind(t) => "Unsupported index type: "@ + t,
    }
}

/// What an index creation request asks for: the columns document
/// read strictly, then the type tag's family, the columns' rejection
/// winning.
pub open spec fn plan_create_index_spec(
    columns_doc: JsonV,
    index_type: Seq<char>,
    name: Option<Seq<char>>,
) -> Result<IndexRequestV, IndexErrV> {
    match string_list(columns_doc) {
        Some(cols) => match index_kind_of(index_type) {
            Some(kind) => Ok(IndexRequestV { columns: cols, kind, name }),
            None => Err(IndexErrV::UnsupportedKind(index_type)),
        },
        None => Err(IndexErrV::BadColumns),
    }
}

/// Read the columns document strictly as an array of strings.
fn parse_string_list(v: &JsonValue) -> (r: Option<Vec<String>>)
    ensures
        match r {
            Some(cols) => string_list(jview(*v)) == Some(cols.deep_view()),
            None => string_list(jview(*v)) is None,
        },
{
    let arr: &Vec<JsonValue> = match v {
        JsonValue::Arr(a) => a,
        _ => {
            return None;
        },
    };
    let ghost av = jview(*v)->Arr_0;
    proof {
        lemma_jview_seq(arr@);
    }
    let n = arr.len();
    let mut cols: Vec<String> = Vec::new();
    let mut i: usize = 0;
    while i < n
        invariant
            n == arr@.len(),
            i <= n,
            jview(*v) == JsonV::Arr(av),
            av == jview_seq(arr@),
            av.len() == n,
            forall|j: int| 0 <= j < n ==> #[trigger] av[j] == jview(arr@[j]),
            cols@.len() == i,
            forall|j: int| 0 <= j < i ==> (#[trigger] av[j]) is Str,
            forall|j: int| 0 <= j < i ==> (#[trigger] cols@[j])@ == av[j]->Str_0,
        decreases n - i,
    {
        match &arr[i] {
            JsonValue::Str(s) => {
                cols.push(s.clone());
            },
            _ => {
                proof {
                    assert(!(av[i as int] is Str));
                }
                return None;
            },
        }
        i += 1;
    }
    proof {
        assert(cols.deep_view() =~= string_list(jview(*v))->Some_0);
    }
    Some(cols)
}

/// The index request a creation call describes.  Succeeds exactly
/// when the columns document is an array of strings and the type tag
/// selects a family.
pub fn plan_create_index(
    columns_doc: &JsonValue,
    index_type: &str,
    name: Option<String>,
) -> (r: Result<IndexRequest, Envelope>)
    ensures
        match r {
            Ok(req) => plan_create_index_spec(jview(*columns_doc), index_type@, name.deep_view())
                == Ok::<IndexRequestV, IndexErrV>(req.deep_view()),
            Err(env) => plan_create_index_spec(jview(*columns_doc), index_type@, name.deep_view())
                matches Err(e) && env.deep_view().wf() && !env.deep_view().success
                && env.deep_view().message == Some(wire_text(index_err_msg(e))),
        },
{
    let columns = match parse_string_list(columns_doc) {
        Some(cols) => cols,
        None => {
            return Err(
                Envelope::error(
                    String::from_str("Failed to parse columns JSON: expected an array of strings"),
                ),
            );
        },
    };
    let kind = if str_eq(index_type, "vector") || str_eq(index_type, "ivf_pq") {
        IndexKind::IvfPq
    } else if str_eq(index_type, "ivf_flat") {
        IndexKind::IvfFlat
    } else if str_eq(index_type, "hnsw_pq") {
        IndexKind::IvfHnswPq
    } else if str_eq(index_type, "hnsw_sq") {
        IndexKind::IvfHnswSq
    } else if str_eq(index_type, "btree") {
        IndexKind::BTree
    } else if str_eq(index_type, "bitmap") {
        IndexKind::Bitmap
    } else if str_eq(index_type, "label_list") {
        IndexKind::LabelList
    } else if str_eq(index_type, "fts") {
        IndexKind::Fts
    } else {
        let msg = String::from_str("Unsupported index type: ").concat(index_type);
        return Err(Envelope::error(msg));
    };
    Ok(IndexRequest { columns, kind, name })
}

/// What a listing reports of one existing index: its name, its
/// columns, and the engine's tag for its type.
#[derive(Clone, PartialEq, Debug)]
pub struct IndexInfo {
    pub name: String,
    pub columns: Vec<String>,
    pub kind_tag: String,
}

/// Mathematical image of `IndexInfo`.
pub ghost struct IndexInfoV {
    pub name: Seq<char>,
    pub columns: Seq<Seq<char>>,
    pub kind_tag: Seq<char>,
}

impl DeepView for IndexInfo {
    type V = IndexInfoV;

    open spec fn deep_view(&self) -> IndexInfoV {
        IndexInfoV {
            name: self.name@,
            columns: self.columns.deep_view(),
            kind_tag: self.kind_tag@,
        }
    }
}

/// The JSON document for one index listing entry.
pub open spec fn index_info_json(i: IndexInfoV) -> JsonV {
    JsonV::Obj(
        seq![
            ("columns"@, JsonV::Arr(Seq::new(i.columns.len(), |k: int| JsonV::Str(i.columns[k])))),
            ("index_type"@, JsonV::Str(i.kind_tag)),
            ("name"@, JsonV::Str(i.name)),
        ],
    )
}

/// The JSON document for a whole index listing.
pub open spec fn index_list_json(infos: Seq<IndexInfoV>) -> JsonV {
    JsonV::Arr(Seq::new(infos.len(), |k: int| index_info_json(infos[k])))
}

/// Render one index listing entry.
fn render_index_info(info: &IndexInfo) -> (out: JsonValue)
    ensures
        jview(out) == index_info_json(info.deep_view()),
{
    let ghost iv = info.deep_view();
    let n = info.columns.len();
    let mut cols: Vec<JsonValue> = Vec::new();
    let mut k: usize = 0;
    while k < n
        invariant
            n == info.columns@.len(),
            k <= n,
            iv == info.deep_view(),
            iv.columns.len() == n,
            forall|j: int| 0 <= j < n ==> #[trigger] iv.columns[j] == info.columns@[j]@,
            cols@.len() == k,
            forall|j: int| 0 <= j < k ==> jview(#[trigger] cols@[j]) == JsonV::Str(iv.columns[j]),
        decreases n - k,
    {
        cols.push(JsonValue::Str(info.columns[k].clone()));
        k += 1;
    }
    let mut entries: Vec<(String, JsonValue)> = Vec::new();
    entries.push((String::from_str("columns"), JsonValue::Arr(cols)));
    entries.push((String::from_str("index_type"), JsonValue::Str(info.kind_tag.clone())));
    entries.push((String::from_str("name"), JsonValue::Str(info.name.clone())));
    let out = JsonValue::Obj(entries);
    proof {
        lemma_jview_entries(entries@);
        lemma_jview_seq(entries@[0].1->Arr_0@);
        assert(jview_seq(entries@[0].1->Arr_0@) =~= index_info_json(iv)->Obj_0[0].1->Arr_0);
        assert(jview(out)->Obj_0 =~= index_info_json(iv)->Obj_0);
    }
    out
}

/// Render a whole index listing into its JSON document.
pub fn render_index_list(infos: &Vec<IndexInfo>) -> (out: JsonValue)
    ensures
        jview(out) == index_list_json(infos.deep_view()),
{
    let ghost iv = infos.deep_view();
    let n = infos.len();
    let mut items: Vec<JsonValue> = Vec::new();
    let mut k: usize = 0;
    while k < n
        invariant
            n == infos@.len(),
            k <= n,
            iv == infos.deep_view(),
            iv.len() == n,
            forall|j: int| 0 <= j < n ==> #[trigger] iv[j] == infos@[j].deep_view(),
            items@.len() == k,
            forall|j: int| 0 <= j < k ==> jview(#[trigger] items@[j]) == index_info_json(iv[j]),
        decreases n - k,
    {
        let item = render_index_info(&infos[k]);
        items.push(item);
        k += 1;
    }
    let out = JsonValue::Arr(items);
    proof {
        lemma_jview_seq(items@);
        assert(jview(out)->Arr_0 =~= index_list_json(iv)->Arr_0);
    }
    out
}

/// What the engine reports of one index's statistics.  The loss, a
/// training metric, arrives as a numeric literal when present.
#[derive(Clone, PartialEq, Debug)]
pub struct IndexStats {
    pub num_indexed_rows: u64,
    pub num_unindexed_rows: u64,
    pub index_type_tag: String,
    pub distance_type: Option<String>,
    pub num_indices: Option<u64>,
    pub loss: Option<NumLit>,
}

/// Mathematical image of `IndexStats`.
pub ghost struct IndexStatsV {
    pub num_indexed_rows: u64,
    pub num_unindexed_rows: u64,
    pub index_type_tag: Seq<char>,
    pub distance_type: Option<Seq<char>>,
    pub num_indices: Option<u64>,
    pub loss: Option<crate::json::NumV>,
}

impl DeepView for IndexStats {
    type V = IndexStatsV;

    open spec fn deep_view(&self) -> IndexStatsV {
        IndexStatsV {
            num_indexed_rows: self.num_indexed_rows,
            num_unindexed_rows: self.num_unindexed_rows,
            index_type_tag: self.index_type_tag@,
            distance_type: self.distance_type.deep_view(),
            num_indices: self.num_indices.deep_view(),
            loss: self.loss.deep_view(),
        }
    }
}

/// A JSON value or null out of an optional string.
pub open spec fn opt_str_json(s: Option<Seq<char>>) -> JsonV {
    match s {
        Some(x) => JsonV::Str(x),
        None => JsonV::Null,
    }
}

/// A JSON value or null out of an optional unsigned integer.
pub open spec fn opt_u64_json(u: Option<u64>) -> JsonV {
    match u {
        Some(x) => JsonV::Num(num_of_u64_spec(x)),
        None => JsonV::Null,
    }
}

/// A JSON value or null out of an optional numeric literal.
pub open spec fn opt_num_json(l: Option<crate::json::NumV>) -> JsonV {
    match l {
        Some(x) => JsonV::Num(x),
        None => JsonV::Null,
    }
}

/// The JSON document for one index's statistics.
pub open spec fn index_stats_json(s: IndexStatsV) -> JsonV {
    JsonV::Obj(
        seq![
            ("distance_type"@, opt_str_json(s.distance_type)),
            ("index_type"@, JsonV::Str(s.index_type_tag)),
            ("loss"@, opt_num_json(s.loss)),
            ("num_indexed_rows"@, JsonV::Num(num_of_u64_spec(s.num_indexed_rows))),
            ("num_indices"@, opt_u64_json(s.num_indices)),
            ("num_unindexed_rows"@, JsonV::Num(num_of_u64_spec(s.num_unindexed_rows))),
        ],
    )
}

/// Render one index's statistics into their JSON document.
pub fn render_index_stats(s: &IndexStats) -> (out: JsonValue)
    ensures
        jview(out) == index_stats_json(s.deep_view()),
{
    let distance = match &s.distance_type {
        Some(d) => JsonValue::Str(d.clone()),
        None => JsonValue::Null,
    };
    let loss = match &s.loss {
        Some(l) => JsonValue::Num(l.dup()),
        None => JsonValue::Null,
    };
    let indices = match &s.num_indices {
        Some(u) => JsonValue::Num(num_of_u64(*u)),
        None => JsonValue::Null,
    };
    let mut entries: Vec<(String, JsonValue)> = Vec::new();
    entries.push((String::from_str("distance_type"), distance));
    entries.push((String::from_str("index_type"), JsonValue::Str(s.index_type_tag.clone())));
    entries.push((String::from_str("loss"), loss));
    entries.push((
        String::from_str("num_indexed_rows"),
        JsonValue::Num(num_of_u64(s.num_indexed_rows)),
    ));
    entries.push((String::from_str("num_indices"), indices));
    entries.push((
        String::from_str("num_unindexed_rows"),
        JsonValue::Num(num_of_u64(s.num_unindexed_rows)),
    ));
    let out = JsonValue::Obj(entries);
    proof {
        lemma_jview_entries(entries@);
        assert(jview(out)->Obj_0 =~= index_stats_json(s.deep_view())->Obj_0);
    }
    out
}

} // verus!
