//! The wire side of the JSON path: text is parsed by the JSON
//! library, and its value tree is then carried node by node into the
//! library's own document model, on which everything else is
//! verified.
//!
//! What text the parser accepts, and how it spells numbers, is the
//! JSON library's own business; nothing downstream depends on more
//! than the shape of the tree it hands over.
use vstd::prelude::*;
use vstd::string::StrSliceExecFns;
use vstd::string::StringExecFns;
use crate::json::{jview, jview_entries, jview_seq, JsonValue, JsonV, NumLit, NumV};
use crate::text::{dec_str, digit_char, i64_to_string, int_str, u64_to_string};

verus! {

/// The character for one hexadecimal digit, lower case.
pub open spec fn hex_digit(d: nat) -> char {
    if d < 10 {
        digit_char(d)
    } else if d == 10 {
        'a'
    } else if d == 11 {
        'b'
    } else if d == 12 {
        'c'
    } else if d == 13 {
        'd'
    } else if d == 14 {
        'e'
    } else {
        'f'
    }
}

/// How one character stands inside a JSON string: itself, or its
/// escape — the two-character escapes the format names, and the
/// four-digit form for the remaining control characters.
pub open spec fn esc_char(c: char) -> Seq<char> {
    if c == '"' {
        seq!['\\', '"']
    } else if c == '\\' {
        seq!['\\', '\\']
    } else if c == '\u{8}' {
        seq!['\\', 'b']
    } else if c == '\u{c}' {
        seq!['\\', 'f']
    } else if c == '\n' {
        seq!['\\', 'n']
    } else if c == '\r' {
        seq!['\\', 'r']
    } else if c == '\t' {
        seq!['\\', 't']
    } else if (c as u32) < 32 {
        seq!['\\', 'u', '0', '0', hex_digit((c as u32 / 16) as nat), hex_digit(
            (c as u32 % 16) as nat,
        )]
    } else {
        seq![c]
    }
}

/// A string's characters, each as it stands inside a JSON string.
pub open spec fn escape_str(s: Seq<char>) -> Seq<char>
    decreases s.len(),
{
    if s.len() == 0 {
        Seq::empty()
    } else {
        escape_str(s.drop_last()) + esc_char(s.last())
    }
}

/// A JSON string literal: the escaped text between quotes.
pub open spec fn quoted(s: Seq<char>) -> Seq<char> {
    seq!['"'] + escape_str(s) + seq!['"']
}

/// A number literal's text: the decimal rendering of an integer, or
/// the carried literal itself.
pub open spec fn num_text(n: NumV) -> Seq<char> {
    match n {
        NumV::Int(i) => int_str(i as int),
        NumV::UInt(u) => dec_str(u as nat),
        NumV::Dec(d) => d,
    }
}

/// The compact JSON text of a document: no spacing, object entries
/// in the document's own order.
pub open spec fn json_text(v: JsonV) -> Seq<char>
    decreases v,
{
    match v {
        JsonV::Null => "null"@,
        JsonV::Bool(b) => if b {
            "true"@
        } else {
            "false"@
        },
        JsonV::Num(n) => num_text(n),
        JsonV::Str(s) => quoted(s),
        JsonV::Arr(es) => seq!['['] + json_items(es) + seq![']'],
        JsonV::Obj(entries) => seq!['{'] + json_obj_entries(entries) + seq!['}'],
    }
}

/// Array elements' text, comma separated.
pub open spec fn json_items(es: Seq<JsonV>) -> Seq<char>
    decreases es,
{
    if es.len() == 0 {
        Seq::empty()
    } else if es.len() == 1 {
        json_text(es.last())
    } else {
        json_items(es.drop_last()) + seq![','] + json_text(es.last())
    }
}

/// Object entries' text, quoted key, colon, value, comma separated.
pub open spec fn json_obj_entries(entries: Seq<(Seq<char>, JsonV)>) -> Seq<char>
    decreases entries,
{
    if entries.len() == 0 {
        Seq::empty()
    } else if entries.len() == 1 {
        quoted(entries.last().0) + seq![':'] + json_text(entries.last().1)
    } else {
        json_obj_entries(entries.drop_last()) + seq![','] + quoted(entries.last().0) + seq![':']
            + json_text(entries.last().1)
    }
}

/// One hexadecimal digit as a string slice, lower case.
fn hex_str(d: u32) -> (r: &'static str)
    requires
        d < 16,
    ensures
        r@ == seq![hex_digit(d as nat)],
{
    proof {
        reveal_strlit("0");
        reveal_strlit("1");
        reveal_strlit("2");
        reveal_strlit("3");
        reveal_strlit("4");
        reveal_strlit("5");
        reveal_strlit("6");
        reveal_strlit("7");
        reveal_strlit("8");
        reveal_strlit("9");
        reveal_strlit("a");
        reveal_strlit("b");
        reveal_strlit("c");
        reveal_strlit("d");
        reveal_strlit("e");
        reveal_strlit("f");
    }
    match d {
        0 => "0",
        1 => "1",
        2 => "2",
        3 => "3",
        4 => "4",
        5 => "5",
        6 => "6",
        7 => "7",
        8 => "8",
        9 => "9",
        10 => "a",
        11 => "b",
        12 => "c",
        13 => "d",
        14 => "e",
        _ => "f",
    }
}

/// Write one string's characters as they stand inside a JSON string.
fn write_escaped(s: &str) -> (r: String)
    ensures
        r@ == escape_str(s@),
{
    let n = s.unicode_len();
    let mut out = String::new();
    let mut i: usize = 0;
    proof {
        assert(s@.take(0) =~= Seq::empty());
    }
    while i < n
        invariant
            n == s@.len(),
            i <= n,
            out@ == escape_str(s@.take(i as int)),
        decreases n - i,
    {
        proof {
            assert(s@.take(i + 1).drop_last() =~= s@.take(i as int));
            assert(s@.take(i + 1).last() == s@[i as int]);
            reveal_strlit("\\\"");
            reveal_strlit("\\\\");
            reveal_strlit("\\b");
            reveal_strlit("\\f");
            reveal_strlit("\\n");
            reveal_strlit("\\r");
            reveal_strlit("\\t");
            reveal_strlit("\\u00");
        }
        let c = s.get_char(i);
        if c == '"' {
            out.append("\\\"");
        } else if c == '\\' {
            out.append("\\\\");
        } else if c == '\u{8}' {
            out.append("\\b");
        } else if c == '\u{c}' {
            out.append("\\f");
        } else if c == '\n' {
            out.append("\\n");
        } else if c == '\r' {
            out.append("\\r");
        } else if c == '\t' {
            out.append("\\t");
        } else if (c as u32) < 32 {
            out.append("\\u00");
            out.append(hex_str(c as u32 / 16));
            out.append(hex_str(c as u32 % 16));
        } else {
            out.append(s.substring_char(i, i + 1));
        }
        proof {
            assert(out@ =~= escape_str(s@.take(i + 1)));
        }
        i += 1;
    }
    proof {
        assert(s@.take(n as int) =~= s@);
    }
    out
}

/// Write one string as a JSON string literal.
fn write_quoted(s: &str) -> (r: String)
    ensures
        r@ == quoted(s@),
{
    proof {
        reveal_strlit("\"");
    }
    let mut out = String::from_str("\"");
    out.append(write_escaped(s).as_str());
    out.append("\"");
    proof {
        assert(out@ =~= quoted(s@));
    }
    out
}

/// Write the compact JSON text of a document, as the boundary hands
/// it to the caller: no spacing, object entries in the document's
/// own order, strings escaped exactly as the format asks.
pub fn write_json(v: &JsonValue) -> (r: String)
    ensures
        r@ == json_text(jview(*v)),
    decreases *v,
{
    match v {
        JsonValue::Null => {
            proof {
                reveal_strlit("null");
            }
            String::from_str("null")
        },
        JsonValue::Bool(b) => {
            proof {
                reveal_strlit("true");
                reveal_strlit("false");
            }
            if *b {
                String::from_str("true")
            } else {
                String::from_str("false")
            }
        },
        JsonValue::Num(NumLit::Int(i)) => i64_to_string(*i),
        JsonValue::Num(NumLit::UInt(u)) => u64_to_string(*u),
        JsonValue::Num(NumLit::Dec(d)) => d.clone(),
        JsonValue::Str(s) => write_quoted(s.as_str()),
        JsonValue::Arr(es) => {
            proof {
                reveal_strlit("[");
                reveal_strlit("]");
                reveal_strlit(",");
                crate::json::lemma_jview_seq(es@);
            }
            let ghost ev = jview(*v)->Arr_0;
            let mut out = String::from_str("[");
            let n = es.len();
            let mut k: usize = 0;
            while k < n
                invariant
                    *v == JsonValue::Arr(*es),
                    n == es@.len(),
                    k <= n,
                    ev == jview_seq(es@),
                    ev.len() == n,
                    forall|m: int| 0 <= m < n ==> #[trigger] ev[m] == jview(es@[m]),
                    out@ == seq!['['] + json_items(ev.take(k as int)),
                decreases n - k,
            {
                proof {
                    assert(ev.take(k + 1).drop_last() =~= ev.take(k as int));
                    assert(ev.take(k + 1).last() == ev[k as int]);
                    reveal_strlit("[");
                    reveal_strlit(",");
                    assert(*v == JsonValue::Arr(*es));
                    assert(decreases_to!(*v => (*v)->Arr_0));
                    assert((*v)->Arr_0 == *es);
                    assert(decreases_to!(*es => es@));
                    assert(decreases_to!(es@ => es@[k as int]));
                }
                if k > 0 {
                    out.append(",");
                }
                let item = write_json(&es[k]);
                out.append(item.as_str());
                proof {
                    assert(out@ =~= seq!['['] + json_items(ev.take(k + 1)));
                }
                k += 1;
            }
            out.append("]");
            proof {
                assert(ev.take(n as int) =~= ev);
                assert(out@ =~= json_text(jview(*v)));
            }
            out
        },
        JsonValue::Obj(entries) => {
            proof {
                reveal_strlit("{");
                reveal_strlit("}");
                reveal_strlit(",");
                reveal_strlit(":");
                crate::json::lemma_jview_entries(entries@);
            }
            let ghost ev = jview(*v)->Obj_0;
            let mut out = String::from_str("{");
            let n = entries.len();
            let mut k: usize = 0;
            while k < n
                invariant
                    *v == JsonValue::Obj(*entries),
                    n == entries@.len(),
                    k <= n,
                    ev == jview_entries(entries@),
                    ev.len() == n,
                    forall|m: int| 0 <= m < n ==> #[trigger] ev[m] == (
                        entries@[m].0@,
                        jview(entries@[m].1),
                    ),
                    out@ == seq!['{'] + json_obj_entries(ev.take(k as int)),
                decreases n - k,
            {
                proof {
                    assert(ev.take(k + 1).drop_last() =~= ev.take(k as int));
                    assert(ev.take(k + 1).last() == ev[k as int]);
                    reveal_strlit("{");
                    reveal_strlit(",");
                    reveal_strlit(":");
                    assert(*v == JsonValue::Obj(*entries));
                    assert(decreases_to!(*v => (*v)->Obj_0));
                    assert((*v)->Obj_0 == *entries);
                    assert(decreases_to!(*entries => entries@));
                    assert(decreases_to!(entries@ => entries@[k as int]));
                    assert(decreases_to!(entries@[k as int] => entries@[k as int].1));
                }
                if k > 0 {
                    out.append(",");
                }
                let key = write_quoted(entries[k].0.as_str());
                out.append(key.as_str());
                out.append(":");
                let item = write_json(&entries[k].1);
                out.append(item.as_str());
                proof {
                    assert(out@ =~= seq!['{'] + json_obj_entries(ev.take(k + 1)));
                }
                k += 1;
            }
            out.append("}");
            proof {
                assert(ev.take(n as int) =~= ev);
                assert(out@ =~= json_text(jview(*v)));
            }
            out
        },
    }
}

#[verifier::external_type_specification]
#[verifier::external_body]
pub struct ExSerdeValue(serde_json::Value);

#[verifier::external_type_specification]
#[verifier::external_body]
#[verifier::reject_recursive_types(K)]
#[verifier::reject_recursive_types(V)]
pub struct ExSerdeMap<K, V>(serde_json::Map<K, V>);

/// Whether the JSON library parses this text.
pub uninterp spec fn json_parses(s: Seq<char>) -> bool;

/// Relies on serde_json::from_str: parses JSON text into the JSON
/// library's value tree, or reports its parse error.  Acceptance is
/// a function of the text alone.
#[verifier::external_body]
fn json_from_str(s: &str) -> (r: Result<serde_json::Value, String>)
    ensures
        r is Ok <==> json_parses(s@),
{
    serde_json::from_str::<serde_json::Value>(s).map_err(|e| e.to_string())
}

/// Relies on serde_json::Value::is_null.
#[verifier::external_body]
fn sv_is_null(v: &serde_json::Value) -> (r: bool) {
    v.is_null()
}

/// Relies on serde_json::Value::as_bool.
#[verifier::external_body]
fn sv_as_bool(v: &serde_json::Value) -> (r: Option<bool>) {
    v.as_bool()
}

/// Relies on serde_json::Value::as_i64: the number as a signed
/// 64-bit integer, where it is an integer in that range.
#[verifier::external_body]
fn sv_as_i64(v: &serde_json::Value) -> (r: Option<i64>) {
    v.as_i64()
}

/// Relies on serde_json::Value::as_u64: the number as an unsigned
/// 64-bit integer, where it is a non-negative integer in that range.
#[verifier::external_body]
fn sv_as_u64(v: &serde_json::Value) -> (r: Option<u64>) {
    v.as_u64()
}

/// Relies on serde_json::Number's rendering: the decimal literal of
/// a number, where the value is a number.
#[verifier::external_body]
fn sv_number_text(v: &serde_json::Value) -> (r: Option<String>) {
    match v {
        serde_json::Value::Number(n) => Some(n.to_string()),
        _ => None,
    }
}

/// Relies on serde_json::Value::as_str, copying the text out.
#[verifier::external_body]
fn sv_as_str(v: &serde_json::Value) -> (r: Option<String>) {
    match v.as_str() {
        Some(x) => Some(x.to_owned()),
        None => None,
    }
}

/// Relies on serde_json::Value::as_array.
#[verifier::external_body]
fn sv_as_array(v: &serde_json::Value) -> (r: Option<&Vec<serde_json::Value>>) {
    v.as_array()
}

/// Relies on serde_json::Value::as_object.
#[verifier::external_body]
fn sv_as_object(v: &serde_json::Value) -> (r: Option<&serde_json::Map<String, serde_json::Value>>) {
    v.as_object()
}

/// Relies on serde_json::Map::iter: the map's entries as plain
/// pairs, in the map's own order, keys already unique.
#[verifier::external_body]
fn map_entries(m: &serde_json::Map<String, serde_json::Value>) -> (r: Vec<
    (String, serde_json::Value),
>) {
    m.iter().map(|(k, x)| (k.clone(), x.clone())).collect()
}

/// Carry one node of the JSON library's tree into the library's own
/// model.  `depth` bounds the nesting this walk follows; the parser
/// itself stops far earlier.
fn convert_value(v: &serde_json::Value, depth: u32) -> (r: Result<JsonValue, ()>)
    decreases depth,
{
    if depth == 0 {
        return Err(());
    }
    if sv_is_null(v) {
        return Ok(JsonValue::Null);
    }
    if let Some(b) = sv_as_bool(v) {
        return Ok(JsonValue::Bool(b));
    }
    if let Some(i) = sv_as_i64(v) {
        return Ok(JsonValue::Num(NumLit::Int(i)));
    }
    if let Some(u) = sv_as_u64(v) {
        return Ok(JsonValue::Num(NumLit::UInt(u)));
    }
    if let Some(t) = sv_number_text(v) {
        return Ok(JsonValue::Num(NumLit::Dec(t)));
    }
    if let Some(s) = sv_as_str(v) {
        return Ok(JsonValue::Str(s));
    }
    if let Some(a) = sv_as_array(v) {
        let n = a.len();
        let mut out: Vec<JsonValue> = Vec::new();
        let mut i: usize = 0;
        while i < n
            invariant
                n == a@.len(),
                i <= n,
                depth > 0,
            decreases n - i,
        {
            match convert_value(&a[i], depth - 1) {
                Ok(j) => {
                    out.push(j);
                },
                Err(e) => {
                    return Err(e);
                },
            }
            i += 1;
        }
        return Ok(JsonValue::Arr(out));
    }
    if let Some(m) = sv_as_object(v) {
        let entries = map_entries(m);
        let n = entries.len();
        let mut out: Vec<(String, JsonValue)> = Vec::new();
        let mut i: usize = 0;
        while i < n
            invariant
                n == entries@.len(),
                i <= n,
                depth > 0,
            decreases n - i,
        {
            match convert_value(&entries[i].1, depth - 1) {
                Ok(j) => {
                    out.push((entries[i].0.clone(), j));
                },
                Err(e) => {
                    return Err(e);
                },
            }
            i += 1;
        }
        return Ok(JsonValue::Obj(out));
    }
    Err(())
}

/// Parse JSON text into the library's document model: the JSON
/// library reads the text, and its tree is carried over node by
/// node.  Fails with the parser's own message on malformed text, and
/// on a document nested beyond what the carrier follows — deeper
/// than anything the parser itself accepts.
pub fn parse_json(s: &str) -> (r: Result<JsonValue, String>)
    ensures
        r is Ok ==> json_parses(s@),
        !json_parses(s@) ==> r is Err,
{
    match json_from_str(s) {
        Ok(v) => match convert_value(&v, 256) {
            Ok(j) => Ok(j),
            Err(_) => Err(String::from_str("JSON document is nested too deeply")),
        },
        Err(e) => Err(e),
    }
}

} // verus!
