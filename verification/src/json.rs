//! A self-contained model of parsed JSON documents.
//!
//! The marshaller works on values of this type rather than on a JSON
//! library's own tree, so every decision it makes is visible to the
//! verifier.  A number keeps the shape the wire gave it: a signed or
//! unsigned integer, or the decimal literal of a non-integer number.
use vstd::prelude::*;

verus! {

/// A JSON number as it crossed the wire: an integer that fits `i64`,
/// an integer that only fits `u64`, or the decimal literal of any
/// other number.
#[derive(Clone, PartialEq, Debug)]
pub enum NumLit {
    Int(i64),
    UInt(u64),
    Dec(String),
}

/// Mathematical image of `NumLit`.
pub ghost enum NumV {
    Int(i64),
    UInt(u64),
    Dec(Seq<char>),
}

impl DeepView for NumLit {
    type V = NumV;

    open spec fn deep_view(&self) -> NumV {
        match self {
            NumLit::Int(i) => NumV::Int(*i),
            NumLit::UInt(u) => NumV::UInt(*u),
            NumLit::Dec(s) => NumV::Dec(s@),
        }
    }
}

/// The literal for an unsigned integer: kept signed where it fits,
/// as a parser would hold it.
pub open spec fn num_of_u64_spec(u: u64) -> NumV {
    if u <= i64::MAX {
        NumV::Int(u as i64)
    } else {
        NumV::UInt(u)
    }
}

/// The literal for an unsigned integer.
pub fn num_of_u64(u: u64) -> (r: NumLit)
    ensures
        r.deep_view() == num_of_u64_spec(u),
{
    if u <= i64::MAX as u64 {
        NumLit::Int(u as i64)
    } else {
        NumLit::UInt(u)
    }
}

impl NumLit {
    /// An equal copy of this literal.
    pub fn dup(&self) -> (r: NumLit)
        ensures
            r.deep_view() == self.deep_view(),
    {
        match self {
            NumLit::Int(i) => NumLit::Int(*i),
            NumLit::UInt(u) => NumLit::UInt(*u),
            NumLit::Dec(s) => NumLit::Dec(s.clone()),
        }
    }
}

/// A parsed JSON value.  Object entries keep the order in which the
/// parser handed them over, with keys already unique.
#[derive(PartialEq, Debug)]
pub enum JsonValue {
    Null,
    Bool(bool),
    Num(NumLit),
    Str(String),
    Arr(Vec<JsonValue>),
    Obj(Vec<(String, JsonValue)>),
}

/// Mathematical image of `JsonValue`.
pub ghost enum JsonV {
    Null,
    Bool(bool),
    Num(NumV),
    Str(Seq<char>),
    Arr(Seq<JsonV>),
    Obj(Seq<(Seq<char>, JsonV)>),
}

/// Image of one JSON value.
pub open spec fn jview(v: JsonValue) -> JsonV
    decreases v,
{
    match v {
        JsonValue::Null => JsonV::Null,
        JsonValue::Bool(b) => JsonV::Bool(b),
        JsonValue::Num(n) => JsonV::Num(n.deep_view()),
        JsonValue::Str(s) => JsonV::Str(s@),
        JsonValue::Arr(a) => JsonV::Arr(jview_seq(a@)),
        JsonValue::Obj(o) => JsonV::Obj(jview_entries(o@)),
    }
}

/// Image of a sequence of JSON values, elementwise.
pub open spec fn jview_seq(s: Seq<JsonValue>) -> Seq<JsonV>
    decreases s,
{
    if s.len() == 0 {
        Seq::empty()
    } else {
        seq![jview(s[0])] + jview_seq(s.drop_first())
    }
}

/// Image of a sequence of object entries, elementwise.
pub open spec fn jview_entries(s: Seq<(String, JsonValue)>) -> Seq<(Seq<char>, JsonV)>
    decreases s,
{
    if s.len() == 0 {
        Seq::empty()
    } else {
        seq![(s[0].0@, jview(s[0].1))] + jview_entries(s.drop_first())
    }
}

/// `jview_seq` is the elementwise image.
pub broadcast proof fn lemma_jview_seq(s: Seq<JsonValue>)
    ensures
        (#[trigger] jview_seq(s)).len() == s.len(),
        forall|i: int| 0 <= i < s.len() ==> jview_seq(s)[i] == jview(s[i]),
    decreases s,
{
    if s.len() > 0 {
        lemma_jview_seq(s.drop_first());
    }
}

/// `jview_entries` is the elementwise image.
pub broadcast proof fn lemma_jview_entries(s: Seq<(String, JsonValue)>)
    ensures
        (#[trigger] jview_entries(s)).len() == s.len(),
        forall|i: int| 0 <= i < s.len() ==> jview_entries(s)[i] == (s[i].0@, jview(s[i].1)),
    decreases s,
{
    if s.len() > 0 {
        lemma_jview_entries(s.drop_first());
    }
}

impl DeepView for JsonValue {
    type V = JsonV;

    open spec fn deep_view(&self) -> JsonV {
        jview(*self)
    }
}

/// First entry of `entries` whose key is `key`, if any.
pub open spec fn obj_lookup(entries: Seq<(Seq<char>, JsonV)>, key: Seq<char>) -> Option<JsonV>
    decreases entries.len(),
{
    if entries.len() == 0 {
        None
    } else if entries[0].0 == key {
        Some(entries[0].1)
    } else {
        obj_lookup(entries.drop_first(), key)
    }
}

/// What looking a key up in a JSON value yields: an entry of an object,
/// or nothing at all for any other shape of value.
pub open spec fn lookup(v: JsonV, key: Seq<char>) -> Option<JsonV> {
    match v {
        JsonV::Obj(entries) => obj_lookup(entries, key),
        _ => None,
    }
}

/// A lookup finds the entry at `j` when no earlier entry has its key.
pub proof fn lemma_obj_lookup_at(entries: Seq<(Seq<char>, JsonV)>, j: int)
    requires
        0 <= j < entries.len(),
        forall|m: int| 0 <= m < j ==> (#[trigger] entries[m]).0 != entries[j].0,
    ensures
        obj_lookup(entries, entries[j].0) == Some(entries[j].1),
    decreases j,
{
    if j > 0 {
        lemma_obj_lookup_at(entries.drop_first(), j - 1);
        assert(forall|m: int|
            0 <= m < j - 1 ==> (#[trigger] entries.drop_first()[m]) == entries[m + 1]);
    }
}

/// A lookup that has passed the first `i` entries without a match is a
/// lookup in the rest.
proof fn lemma_obj_lookup_skip(entries: Seq<(Seq<char>, JsonV)>, key: Seq<char>, i: int)
    requires
        0 <= i <= entries.len(),
        forall|j: int| 0 <= j < i ==> entries[j].0 != key,
    ensures
        obj_lookup(entries, key) == obj_lookup(entries.skip(i), key),
    decreases i,
{
    if i > 0 {
        assert(entries[0].0 != key);
        assert(forall|j: int|
            0 <= j < i - 1 ==> (#[trigger] entries.drop_first()[j]) == entries[j + 1]);
        lemma_obj_lookup_skip(entries.drop_first(), key, i - 1);
        assert(entries.drop_first().skip(i - 1) =~= entries.skip(i));
    } else {
        assert(entries.skip(0) =~= entries);
    }
}

/// The characters of a JSON string value, if that is what `v` is.
pub open spec fn jv_as_str(v: JsonV) -> Option<Seq<char>> {
    match v {
        JsonV::Str(s) => Some(s),
        _ => None,
    }
}

/// The boolean of a JSON boolean value, if that is what `v` is.
pub open spec fn jv_as_bool(v: JsonV) -> Option<bool> {
    match v {
        JsonV::Bool(b) => Some(b),
        _ => None,
    }
}

/// A JSON number read as a signed 64-bit integer.  An unsigned value
/// is kept in `NumV::UInt` only when it is above `i64::MAX`, so it
/// never reads back as signed.
pub open spec fn jv_as_i64(v: JsonV) -> Option<i64> {
    match v {
        JsonV::Num(NumV::Int(i)) => Some(i),
        _ => None,
    }
}

/// A JSON number read as an unsigned 64-bit integer.
pub open spec fn jv_as_u64(v: JsonV) -> Option<u64> {
    match v {
        JsonV::Num(NumV::Int(i)) => if i >= 0 {
            Some(i as u64)
        } else {
            None
        },
        JsonV::Num(NumV::UInt(u)) => Some(u),
        _ => None,
    }
}

/// The elements of a JSON array value, if that is what `v` is.
pub open spec fn jv_as_arr(v: JsonV) -> Option<Seq<JsonV>> {
    match v {
        JsonV::Arr(a) => Some(a),
        _ => None,
    }
}

impl JsonValue {
    /// The string inside, if this is a JSON string.
    pub fn as_str(&self) -> (r: Option<&String>)
        ensures
            match r {
                Some(s) => jv_as_str(jview(*self)) == Some(s@),
                None => jv_as_str(jview(*self)) is None,
            },
    {
        match self {
            JsonValue::Str(s) => Some(s),
            _ => None,
        }
    }

    /// The boolean inside, if this is a JSON boolean.
    pub fn as_bool(&self) -> (r: Option<bool>)
        ensures
            r == jv_as_bool(jview(*self)),
    {
        match self {
            JsonValue::Bool(b) => Some(*b),
            _ => None,
        }
    }

    /// This number as a signed 64-bit integer, if it is one.
    pub fn as_i64(&self) -> (r: Option<i64>)
        ensures
            r == jv_as_i64(jview(*self)),
    {
        match self {
            JsonValue::Num(NumLit::Int(i)) => Some(*i),
            _ => None,
        }
    }

    /// This number as an unsigned 64-bit integer, if it is one.
    pub fn as_u64(&self) -> (r: Option<u64>)
        ensures
            r == jv_as_u64(jview(*self)),
    {
        match self {
            JsonValue::Num(NumLit::Int(i)) => if *i >= 0 {
                Some(*i as u64)
            } else {
                None
            },
            JsonValue::Num(NumLit::UInt(u)) => Some(*u),
            _ => None,
        }
    }

    /// The elements inside, if this is a JSON array.
    pub fn as_arr(&self) -> (r: Option<&Vec<JsonValue>>)
        ensures
            match r {
                Some(a) => jv_as_arr(jview(*self)) == Some(jview_seq(a@)),
                None => jv_as_arr(jview(*self)) is None,
            },
    {
        match self {
            JsonValue::Arr(a) => Some(a),
            _ => None,
        }
    }

    /// Whether this is the JSON null value.
    pub fn is_null(&self) -> (r: bool)
        ensures
            r == (jview(*self) is Null),
    {
        match self {
            JsonValue::Null => true,
            _ => false,
        }
    }

    /// Look `key` up in this value, as an object field.
    pub fn get<'a>(&'a self, key: &String) -> (r: Option<&'a JsonValue>)
        ensures
            match r {
                Some(v) => lookup(jview(*self), key@) == Some(jview(*v)),
                None => lookup(jview(*self), key@) is None,
            },
    {
        match self {
            JsonValue::Obj(entries) => {
                proof {
                    lemma_jview_entries(entries@);
                }
                let ghost es = jview_entries(entries@);
                assert(jview(*self) == JsonV::Obj(es));
                let n = entries.len();
                let mut i: usize = 0;
                while i < n
                    invariant
                        n == entries@.len(),
                        i <= n,
                        es == jview_entries(entries@),
                        es.len() == n,
                        jview(*self) == JsonV::Obj(es),
                        forall|j: int| 0 <= j < n ==> (#[trigger] es[j])
                            == (entries@[j].0@, jview(entries@[j].1)),
                        forall|j: int| 0 <= j < i ==> (#[trigger] es[j]).0 != key@,
                    decreases n - i,
                {
                    if entries[i].0 == *key {
                        proof {
                            lemma_obj_lookup_skip(es, key@, i as int);
                            assert(es.skip(i as int)[0] == es[i as int]);
                            assert(obj_lookup(es, key@) == Some(es[i as int].1));
                        }
                        return Some(&entries[i].1);
                    }
                    i += 1;
                }
                proof {
                    lemma_obj_lookup_skip(es, key@, n as int);
                    assert(es.skip(n as int) =~= Seq::empty());
                }
                None
            },
            _ => None,
        }
    }
}

} // verus!
