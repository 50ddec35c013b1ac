//! A JSON tree of plain values, the searches the dropdown responses
//! need over it, and the extraction of the embedded metadata object of
//! a chart page. Parsing JSON text itself is an outside call; callers
//! convert the parsed tree into [`JsonValue`] and the searches here are
//! verified over that.
use vstd::prelude::*;
use vstd::string::StrSliceExecFns;
use vstd::string::StringExecFns;

use crate::marche::{normalize_option_values, normalized_values};
use crate::seq_util::{first_match, lemma_first_match_absent, lemma_first_match_witness};
use crate::text_util::{str_eq, sub_index};

verus! {

broadcast use vstd::std_specs::vec::axiom_vec_index_decreases;

/// A JSON document as plain values: numbers stay as their source text,
/// objects keep their fields in document order.
pub enum JsonValue {
    /// JSON null.
    Null,
    /// A boolean.
    Bool(bool),
    /// A number, as its source text.
    Num(String),
    /// A string.
    Str(String),
    /// An array.
    Arr(Vec<JsonValue>),
    /// An object: fields in document order.
    Obj(Vec<(String, JsonValue)>),
}

/// The value of an object's field, first occurrence winning.
pub open spec fn obj_field(fields: Seq<(String, JsonValue)>, key: Seq<char>) -> Option<JsonValue>
    decreases fields.len(),
{
    if fields.len() == 0 {
        None
    } else if fields[0].0@ == key {
        Some(fields[0].1)
    } else {
        obj_field(fields.drop_first(), key)
    }
}

/// How many children a node has: an object's fields or an array's
/// items.
pub open spec fn child_count(v: JsonValue) -> int {
    match v {
        JsonValue::Obj(fields) => fields@.len() as int,
        JsonValue::Arr(items) => items@.len() as int,
        _ => 0,
    }
}

/// The node's child at a position.
pub open spec fn child_at(v: JsonValue, i: int) -> JsonValue {
    match v {
        JsonValue::Obj(fields) => fields@[i].1,
        JsonValue::Arr(items) => items@[i],
        _ => v,
    }
}

/// The first value stored under `key` anywhere in the tree, by the
/// depth-first search the dropdown reader runs: an object is checked
/// for the key itself before its children, arrays left to right.
pub open spec fn find_key(v: JsonValue, key: Seq<char>) -> Option<JsonValue>
    decreases v, child_count(v) + 2,
{
    match v {
        JsonValue::Obj(fields) => match obj_field(fields@, key) {
            Some(found) => Some(found),
            None => find_key_from(v, key, 0),
        },
        JsonValue::Arr(items) => find_key_from(v, key, 0),
        _ => None,
    }
}

/// The first hit among the node's children from position `i` on.
pub open spec fn find_key_from(v: JsonValue, key: Seq<char>, i: int) -> Option<JsonValue>
    decreases v, child_count(v) - i,
{
    if i < 0 || i >= child_count(v) {
        None
    } else {
        match find_key(child_at(v, i), key) {
            Some(found) => Some(found),
            None => find_key_from(v, key, i + 1),
        }
    }
}

/// Searches the tree for `key`, depth first, objects before their
/// children, arrays left to right.
pub fn find_value_for_key<'a>(v: &'a JsonValue, key: &str) -> (r: Option<&'a JsonValue>)
    ensures
        match r {
            Some(found) => find_key(*v, key@) == Some(*found),
            None => find_key(*v, key@) is None,
        },
    decreases *v,
{
    match v {
        JsonValue::Obj(fields) => {
            let n = fields.len();
            let mut i: usize = 0;
            proof {
                assert(fields@.skip(0) =~= fields@);
            }
            while i < n
                invariant
                    n == fields@.len(),
                    v is Obj,
                    fields@ == v->Obj_0@,
                    0 <= i <= n,
                    obj_field(fields@, key@) == obj_field(fields@.skip(i as int), key@),
                decreases n - i,
            {
                proof {
                    assert(fields@.skip(i as int)[0] == fields@[i as int]);
                    assert(fields@.skip(i as int).drop_first() =~= fields@.skip(i + 1));
                }
                if str_eq(fields[i].0.as_str(), key) {
                    return Some(&fields[i].1);
                }
                i += 1;
            }
            proof {
                assert(fields@.skip(n as int).len() == 0);
            }
            let mut j: usize = 0;
            while j < n
                invariant
                    n == fields@.len(),
                    n == child_count(*v),
                    v is Obj,
                    fields@ == v->Obj_0@,
                    0 <= j <= n,
                    obj_field(fields@, key@) is None,
                    find_key(*v, key@) == find_key_from(*v, key@, j as int),
                decreases n - j,
            {
                match find_value_for_key(&fields[j].1, key) {
                    Some(found) => {
                        proof {
                            assert(child_at(*v, j as int) == fields@[j as int].1);
                        }
                        return Some(found);
                    },
                    None => {
                        proof {
                            assert(child_at(*v, j as int) == fields@[j as int].1);
                        }
                    },
                }
                j += 1;
            }
            None
        },
        JsonValue::Arr(items) => {
            let n = items.len();
            let mut i: usize = 0;
            while i < n
                invariant
                    n == items@.len(),
                    n == child_count(*v),
                    v is Arr,
                    items@ == v->Arr_0@,
                    0 <= i <= n,
                    find_key(*v, key@) == find_key_from(*v, key@, i as int),
                decreases n - i,
            {
                match find_value_for_key(&items[i], key) {
                    Some(found) => {
                        proof {
                            assert(child_at(*v, i as int) == items@[i as int]);
                        }
                        return Some(found);
                    },
                    None => {
                        proof {
                            assert(child_at(*v, i as int) == items@[i as int]);
                        }
                    },
                }
                i += 1;
            }
            None
        },
        _ => None,
    }
}

/// The raw option texts a subtree holds: an object's "value", "id",
/// "text" or "label" string (the first of those present), else its
/// children's texts; an array's items' texts in order; a bare string
/// itself.
pub open spec fn raw_option_values(v: JsonValue) -> Seq<Seq<char>>
    decreases v, child_count(v) + 2,
{
    match v {
        JsonValue::Str(s) => seq![s@],
        JsonValue::Arr(items) => raw_values_from(v, 0),
        JsonValue::Obj(fields) => {
            let picked = if obj_string_field(fields@, "value"@) is Some {
                obj_string_field(fields@, "value"@)
            } else if obj_string_field(fields@, "id"@) is Some {
                obj_string_field(fields@, "id"@)
            } else if obj_string_field(fields@, "text"@) is Some {
                obj_string_field(fields@, "text"@)
            } else {
                obj_string_field(fields@, "label"@)
            };
            match picked {
                Some(s) => seq![s],
                None => raw_values_from(v, 0),
            }
        },
        _ => Seq::empty(),
    }
}

/// An object field that holds a string, by key.
pub open spec fn obj_string_field(
    fields: Seq<(String, JsonValue)>,
    key: Seq<char>,
) -> Option<Seq<char>> {
    match obj_field(fields, key) {
        Some(JsonValue::Str(s)) => Some(s@),
        _ => None,
    }
}

/// The raw texts of the node's children from position `i` on.
pub open spec fn raw_values_from(v: JsonValue, i: int) -> Seq<Seq<char>>
    decreases v, child_count(v) - i,
{
    if i < 0 || i >= child_count(v) {
        Seq::empty()
    } else {
        raw_option_values(child_at(v, i)) + raw_values_from(v, i + 1)
    }
}

/// Reads an object field that holds a string.
fn get_obj_string(fields: &Vec<(String, JsonValue)>, key: &str) -> (r: Option<String>)
    ensures
        match r {
            Some(s) => obj_string_field(fields@, key@) == Some(s@),
            None => obj_string_field(fields@, key@) is None,
        },
{
    let n = fields.len();
    let mut i: usize = 0;
    proof {
        assert(fields@.skip(0) =~= fields@);
    }
    while i < n
        invariant
            n == fields@.len(),
            0 <= i <= n,
            obj_field(fields@, key@) == obj_field(fields@.skip(i as int), key@),
        decreases n - i,
    {
        proof {
            assert(fields@.skip(i as int)[0] == fields@[i as int]);
            assert(fields@.skip(i as int).drop_first() =~= fields@.skip(i + 1));
        }
        if str_eq(fields[i].0.as_str(), key) {
            match &fields[i].1 {
                JsonValue::Str(s) => {
                    return Some(s.clone());
                },
                _ => {
                    return None;
                },
            }
        }
        i += 1;
    }
    proof {
        assert(fields@.skip(n as int).len() == 0);
    }
    None
}

/// Collects the raw option texts of a subtree, in document order.
fn collect_option_values(v: &JsonValue, out: &mut Vec<String>)
    ensures
        final(out)@.map_values(|x: String| x@) == old(out)@.map_values(|x: String| x@)
            + raw_option_values(*v),
    decreases *v,
{
    let ghost before = out@.map_values(|x: String| x@);
    match v {
        JsonValue::Str(s) => {
            out.push(s.clone());
            proof {
                assert(out@.map_values(|x: String| x@) =~= before + raw_option_values(*v));
            }
        },
        JsonValue::Arr(items) => {
            let n = items.len();
            let mut i: usize = 0;
            while i < n
                invariant
                    n == items@.len(),
                    n == child_count(*v),
                    v is Arr,
                    items@ == v->Arr_0@,
                    0 <= i <= n,
                    out@.map_values(|x: String| x@) + raw_values_from(*v, i as int) == before
                        + raw_option_values(*v),
                decreases n - i,
            {
                let ghost mid = out@.map_values(|x: String| x@);
                collect_option_values(&items[i], out);
                proof {
                    assert(child_at(*v, i as int) == items@[i as int]);
                    assert((mid + raw_option_values(items@[i as int])) + raw_values_from(
                        *v,
                        i + 1,
                    ) =~= mid + raw_values_from(*v, i as int));
                }
                i += 1;
            }
            proof {
                assert(out@.map_values(|x: String| x@) + raw_values_from(*v, n as int)
                    =~= out@.map_values(|x: String| x@));
            }
        },
        JsonValue::Obj(fields) => {
            let picked = match get_obj_string(fields, "value") {
                Some(s) => Some(s),
                None => match get_obj_string(fields, "id") {
                    Some(s) => Some(s),
                    None => match get_obj_string(fields, "text") {
                        Some(s) => Some(s),
                        None => get_obj_string(fields, "label"),
                    },
                },
            };
            proof {
                reveal_strlit("value");
                reveal_strlit("id");
                reveal_strlit("text");
                reveal_strlit("label");
            }
            match picked {
                Some(s) => {
                    out.push(s);
                    proof {
                        assert(out@.map_values(|x: String| x@) =~= before + raw_option_values(*v));
                    }
                },
                None => {
                    let ghost picked_none = true;
                    let n = fields.len();
                    let mut i: usize = 0;
                    proof {
                        assert(before + raw_values_from(*v, 0) =~= before + raw_option_values(*v));
                    }
                    while i < n
                        invariant
                            n == fields@.len(),
                            n == child_count(*v),
                            v is Obj,
                            fields@ == v->Obj_0@,
                            0 <= i <= n,
                            out@.map_values(|x: String| x@) + raw_values_from(*v, i as int)
                                == before + raw_option_values(*v),
                        decreases n - i,
                    {
                        let ghost mid = out@.map_values(|x: String| x@);
                        collect_option_values(&fields[i].1, out);
                        proof {
                            assert(child_at(*v, i as int) == fields@[i as int].1);
                            assert((mid + raw_option_values(fields@[i as int].1))
                                + raw_values_from(*v, i + 1) =~= mid + raw_values_from(
                                *v,
                                i as int,
                            ));
                        }
                        i += 1;
                    }
                    proof {
                        assert(out@.map_values(|x: String| x@) + raw_values_from(*v, n as int)
                            =~= out@.map_values(|x: String| x@));
                    }
                },
            }
        },
        _ => {
            proof {
                assert(out@.map_values(|x: String| x@) =~= before + raw_option_values(*v));
            }
        },
    }
}

/// The option texts a subtree yields, cleaned: trimmed, blanks and the
/// "All" placeholder dropped, duplicates dropped.
pub open spec fn option_values_of(v: JsonValue) -> Seq<Seq<char>> {
    normalized_values(raw_option_values(v))
}

/// Extracts the cleaned option texts of a subtree.
pub fn extract_option_values(v: &JsonValue) -> (r: Vec<String>)
    ensures
        r@.map_values(|x: String| x@) == option_values_of(*v),
{
    let mut raw: Vec<String> = Vec::new();
    collect_option_values(v, &mut raw);
    proof {
        assert(raw@.map_values(|x: String| x@) =~= raw_option_values(*v));
    }
    normalize_option_values(raw)
}

/// The cleaned option texts of the subtree stored under `key`, or
/// nothing at all when the key is absent.
pub open spec fn dropdown_values_of(v: JsonValue, key: Seq<char>) -> Seq<Seq<char>> {
    match find_key(v, key) {
        Some(found) => option_values_of(found),
        None => Seq::empty(),
    }
}

/// Extracts the cleaned option texts stored under `key`.
pub fn extract_dropdown_values(root: &JsonValue, key: &str) -> (r: Vec<String>)
    ensures
        r@.map_values(|x: String| x@) == dropdown_values_of(*root, key@),
{
    match find_value_for_key(root, key) {
        Some(found) => extract_option_values(found),
        None => {
            let empty: Vec<String> = Vec::new();
            proof {
                assert(empty@.map_values(|x: String| x@) =~= Seq::<Seq<char>>::empty());
            }
            empty
        },
    }
}

/// Index just past the brace that closes the object scanned from `i`
/// with `depth` braces already open, or -1 when it never closes.
pub open spec fn brace_scan(s: Seq<char>, i: int, depth: int) -> int
    decreases s.len() - i,
{
    if i < 0 || i >= s.len() {
        -1
    } else {
        let d = if s[i] == '{' {
            depth + 1
        } else if s[i] == '}' {
            depth - 1
        } else {
            depth
        };
        if s[i] == '}' && d == 0 {
            i + 1
        } else {
            brace_scan(s, i + 1, d)
        }
    }
}

/// The first balanced brace-delimited object of the text, braces
/// matched by depth.
pub open spec fn json_object_in(payload: Seq<char>) -> Option<Seq<char>> {
    let start = first_match(payload, |c: char| c == '{');
    if start == -1 {
        None
    } else {
        let e = brace_scan(payload, start, 0);
        if e == -1 {
            None
        } else {
            Some(payload.subrange(start, e))
        }
    }
}

/// Extracts the first balanced brace-delimited object of the text.
pub fn extract_json_object(payload: &str) -> (r: Option<String>)
    requires
        payload@.len() < 0x7fffffffffffffff,
    ensures
        match r {
            Some(j) => json_object_in(payload@) == Some(j@),
            None => json_object_in(payload@) is None,
        },
{
    let n = payload.unicode_len();
    let mut start: usize = 0;
    while start < n && payload.get_char(start) != '{'
        invariant
            n == payload@.len(),
            0 <= start <= n,
            forall|k: int| 0 <= k < start ==> payload@[k] != '{',
        decreases n - start,
    {
        start += 1;
    }
    if start >= n {
        proof {
            lemma_first_match_absent(payload@, |c: char| c == '{');
        }
        return None;
    }
    proof {
        lemma_first_match_witness(payload@, |c: char| c == '{', start as int);
    }
    let mut depth: i64 = 0;
    let mut i: usize = start;
    while i < n
        invariant
            n == payload@.len(),
            n < 0x7fffffffffffffff,
            first_match(payload@, |c: char| c == '{') == start as int,
            start <= i <= n,
            -(i as int - start) <= depth <= i - start,
            brace_scan(payload@, start as int, 0) == brace_scan(payload@, i as int, depth as int),
        decreases n - i,
    {
        let c = payload.get_char(i);
        let d = if c == '{' {
            depth + 1
        } else if c == '}' {
            depth - 1
        } else {
            depth
        };
        if c == '}' && d == 0 {
            let piece = payload.substring_char(start, i + 1).to_owned();
            proof {
                assert(piece@ =~= payload@.subrange(start as int, i + 1));
            }
            return Some(piece);
        }
        depth = d;
        i += 1;
    }
    None
}

/// The string stored under `key` at the top level of a JSON text, as
/// the JSON parser reads it — a function of the text and key alone.
pub uninterp spec fn json_string_field_of(text: Seq<char>, key: Seq<char>) -> Option<Seq<char>>;

/// Relies on serde_json's `from_str`, `Value::get` and `Value::as_str`:
/// the top-level string field of a JSON text, which depends on the text
/// and key alone.
#[verifier::external_body]
pub fn json_string_field(text: &str, key: &str) -> (r: Option<String>)
    ensures
        match r {
            Some(s) => json_string_field_of(text@, key@) == Some(s@),
            None => json_string_field_of(text@, key@) is None,
        },
{
    match serde_json::from_str::<serde_json::Value>(text) {
        Ok(v) => match v.get(key) {
            Some(f) => f.as_str().map(|s| s.to_string()),
            None => None,
        },
        Err(_) => None,
    }
}

/// The basin a chart page's embedded metadata names: the object behind
/// the "var data" script marker, its "namebasin" else "namesubbasin"
/// string.
pub open spec fn grafico_bacino(payload: Seq<char>) -> Option<Seq<char>> {
    let m = if sub_index(payload, "var  data"@) != -1 {
        sub_index(payload, "var  data"@)
    } else {
        sub_index(payload, "var data"@)
    };
    if m == -1 {
        None
    } else {
        match json_object_in(payload.skip(m)) {
            Some(j) => match json_string_field_of(j, "namebasin"@) {
                Some(b) => Some(b),
                None => json_string_field_of(j, "namesubbasin"@),
            },
            None => None,
        }
    }
}

/// Reads the basin name out of a chart page.
pub fn parse_grafico_metadata(payload: &str) -> (r: Option<String>)
    requires
        payload@.len() < 0x7fffffffffffffff,
    ensures
        match r {
            Some(b) => grafico_bacino(payload@) == Some(b@),
            None => grafico_bacino(payload@) is None,
        },
{
    proof {
        reveal_strlit("var  data");
        reveal_strlit("var data");
        reveal_strlit("namebasin");
        reveal_strlit("namesubbasin");
        crate::text_util::lemma_sub_index_props(payload@, "var  data"@);
        crate::text_util::lemma_sub_index_props(payload@, "var data"@);
    }
    let m = match crate::text_util::find_substring(payload, "var  data") {
        Some(i) => i,
        None => match crate::text_util::find_substring(payload, "var data") {
            Some(i) => i,
            None => {
                return None;
            },
        },
    };
    let n = payload.unicode_len();
    let rest = payload.substring_char(m, n);
    proof {
        assert(rest@ =~= payload@.skip(m as int));
    }
    match extract_json_object(rest) {
        Some(j) => match json_string_field(j.as_str(), "namebasin") {
            Some(b) => Some(b),
            None => json_string_field(j.as_str(), "namesubbasin"),
        },
        None => None,
    }
}

} // verus!
