//! JSON values as the server reads them: a model of their content and the few
//! readings the request handling makes of them.

use vstd::prelude::*;

verus! {

#[verifier::external_type_specification]
#[verifier::external_body]
pub struct ExJsonValue(serde_json::Value);

/// The content of a JSON value. A number is `Unsigned` when it is an integer that fits
/// in `u64`, else `Signed` when it is an integer that fits in `i64`, else `OtherNumber`.
pub enum JsonView {
    Null,
    Bool(bool),
    Unsigned(u64),
    Signed(i64),
    OtherNumber,
    Text(Seq<char>),
    Array(Seq<JsonView>),
    Object(Map<Seq<char>, JsonView>),
}

/// What a `serde_json::Value` holds.
pub uninterp spec fn json_content(v: serde_json::Value) -> JsonView;

/// What `serde_json::from_str::<serde_json::Value>` makes of a text: the value it
/// holds, or nothing when the text is not one JSON value.
pub uninterp spec fn parsed_json(text: Seq<char>) -> Option<JsonView>;

/// The member of an object with this key; nothing for a missing key or a non-object.
pub open spec fn field_of(j: JsonView, key: Seq<char>) -> Option<JsonView> {
    match j {
        JsonView::Object(m) => if m.contains_key(key) {
            Some(m[key])
        } else {
            None
        },
        _ => None,
    }
}

/// The text of a JSON string; nothing for any other value.
pub open spec fn text_of(j: JsonView) -> Option<Seq<char>> {
    match j {
        JsonView::Text(s) => Some(s),
        _ => None,
    }
}

/// The integer of a JSON number that fits in `u64`; nothing for any other value.
pub open spec fn unsigned_of(j: JsonView) -> Option<u64> {
    match j {
        JsonView::Unsigned(n) => Some(n),
        _ => None,
    }
}

/// The items of a JSON array; nothing for any other value.
pub open spec fn items_of(j: JsonView) -> Option<Seq<JsonView>> {
    match j {
        JsonView::Array(items) => Some(items),
        _ => None,
    }
}

/// The contents of a list of JSON values.
pub open spec fn contents(v: Seq<serde_json::Value>) -> Seq<JsonView> {
    v.map_values(|x: serde_json::Value| json_content(x))
}

/// `serde_json::from_str::<serde_json::Value>`: parses a text as one JSON value.
#[verifier::external_body]
pub fn parse_json(text: &str) -> (r: Option<serde_json::Value>)
    ensures
        r is None <==> parsed_json(text@) is None,
        r matches Some(v) ==> parsed_json(text@) == Some(json_content(v)),
{
    match serde_json::from_str::<serde_json::Value>(text) {
        Ok(v) => Some(v),
        Err(_) => None,
    }
}

/// `serde_json::Value::get` with a string key: the member of an object with that key.
#[verifier::external_body]
pub fn json_get<'a>(v: &'a serde_json::Value, key: &str) -> (r: Option<&'a serde_json::Value>)
    ensures
        r is None <==> field_of(json_content(*v), key@) is None,
        r matches Some(x) ==> field_of(json_content(*v), key@) == Some(json_content(*x)),
{
    v.get(key)
}

/// `serde_json::Value::as_str`: the text of a JSON string.
#[verifier::external_body]
fn json_as_str(v: &serde_json::Value) -> (r: Option<String>)
    ensures
        r is None <==> text_of(json_content(*v)) is None,
        r matches Some(s) ==> text_of(json_content(*v)) == Some(s@),
{
    match v.as_str() {
        Some(s) => Some(s.to_string()),
        None => None,
    }
}

/// `serde_json::Value::as_u64`: the integer of a JSON number that fits in `u64`.
#[verifier::external_body]
fn json_as_u64(v: &serde_json::Value) -> (r: Option<u64>)
    ensures
        r == unsigned_of(json_content(*v)),
{
    v.as_u64()
}

/// `serde_json::Value::as_array`: the items of a JSON array.
#[verifier::external_body]
fn json_as_array(v: &serde_json::Value) -> (r: Option<&Vec<serde_json::Value>>)
    ensures
        r is None <==> items_of(json_content(*v)) is None,
        r matches Some(a) ==> items_of(json_content(*v)) == Some(contents(a@)),
{
    v.as_array()
}

/// `Clone` for `serde_json::Value`: a copy holding the same content.
#[verifier::external_body]
pub fn json_clone(v: &serde_json::Value) -> (r: serde_json::Value)
    ensures
        json_content(r) == json_content(*v),
{
    v.clone()
}

/// The text of the member with this key, when it is a string.
pub open spec fn string_member(j: JsonView, key: Seq<char>) -> Option<Seq<char>> {
    match field_of(j, key) {
        Some(x) => text_of(x),
        None => None,
    }
}

/// The integer of the member with this key, when it is a number that fits in `u64`.
pub open spec fn unsigned_member(j: JsonView, key: Seq<char>) -> Option<u64> {
    match field_of(j, key) {
        Some(x) => unsigned_of(x),
        None => None,
    }
}

/// The string items of a list of JSON values, in their order; other items are left out.
pub open spec fn text_items(items: Seq<JsonView>) -> Seq<Seq<char>>
    decreases items.len(),
{
    if items.len() == 0 {
        Seq::empty()
    } else {
        let rest = text_items(items.drop_last());
        match text_of(items.last()) {
            Some(s) => rest.push(s),
            None => rest,
        }
    }
}

/// The items of a list of JSON values that are integers fitting in `u64`, in their
/// order; other items are left out.
pub open spec fn unsigned_items(items: Seq<JsonView>) -> Seq<u64>
    decreases items.len(),
{
    if items.len() == 0 {
        Seq::empty()
    } else {
        let rest = unsigned_items(items.drop_last());
        match unsigned_of(items.last()) {
            Some(n) => rest.push(n),
            None => rest,
        }
    }
}

/// The string items of the member with this key, when it is an array.
pub open spec fn strings_member(j: JsonView, key: Seq<char>) -> Option<Seq<Seq<char>>> {
    match field_of(j, key) {
        Some(x) => match items_of(x) {
            Some(items) => Some(text_items(items)),
            None => None,
        },
        None => None,
    }
}

/// The integer items of the member with this key, when it is an array.
pub open spec fn unsigned_items_member(j: JsonView, key: Seq<char>) -> Option<Seq<u64>> {
    match field_of(j, key) {
        Some(x) => match items_of(x) {
            Some(items) => Some(unsigned_items(items)),
            None => None,
        },
        None => None,
    }
}

/// The text of an optional string.
pub open spec fn opt_text(s: Option<String>) -> Option<Seq<char>> {
    match s {
        Some(s) => Some(s@),
        None => None,
    }
}

/// The texts of an optional list of strings.
pub open spec fn opt_texts(v: Option<Vec<String>>) -> Option<Seq<Seq<char>>> {
    match v {
        Some(v) => Some(v@.map_values(|s: String| s@)),
        None => None,
    }
}

/// The integers of an optional list.
pub open spec fn opt_numbers(v: Option<Vec<u64>>) -> Option<Seq<u64>> {
    match v {
        Some(v) => Some(v@),
        None => None,
    }
}

/// The text of the member with this key, when it is a string.
pub fn read_string_member(v: &serde_json::Value, key: &str) -> (r: Option<String>)
    ensures
        opt_text(r) == string_member(json_content(*v), key@),
{
    match json_get(v, key) {
        Some(x) => json_as_str(x),
        None => None,
    }
}

/// The integer of the member with this key, when it is a number that fits in `u64`.
pub fn read_unsigned_member(v: &serde_json::Value, key: &str) -> (r: Option<u64>)
    ensures
        r == unsigned_member(json_content(*v), key@),
{
    match json_get(v, key) {
        Some(x) => json_as_u64(x),
        None => None,
    }
}

/// The string items of the member with this key, in order, when it is an array.
pub fn read_strings_member(v: &serde_json::Value, key: &str) -> (r: Option<Vec<String>>)
    ensures
        opt_texts(r) == strings_member(json_content(*v), key@),
{
    let x = match json_get(v, key) {
        Some(x) => x,
        None => {
            return None;
        },
    };
    let items = match json_as_array(x) {
        Some(a) => a,
        None => {
            return None;
        },
    };
    let ghost cs = contents(items@);
    let mut out: Vec<String> = Vec::new();
    let mut i: usize = 0;
    while i < items.len()
        invariant
            i <= items@.len(),
            cs == contents(items@),
            out@.map_values(|s: String| s@) == text_items(cs.take(i as int)),
        decreases items.len() - i,
    {
        let t = json_as_str(&items[i]);
        proof {
            assert(cs.take(i + 1).drop_last() =~= cs.take(i as int));
            assert(cs.take(i + 1).last() == json_content(items@[i as int]));
        }
        match t {
            Some(s) => {
                let ghost before = out@;
                out.push(s);
                assert(out@.map_values(|s: String| s@) =~= before.map_values(|s: String| s@).push(
                    out@.last()@,
                ));
            },
            None => {},
        }
        i = i + 1;
    }
    assert(cs.take(items.len() as int) =~= cs);
    Some(out)
}

/// The integer items of the member with this key, in order, when it is an array.
pub fn read_unsigned_items_member(v: &serde_json::Value, key: &str) -> (r: Option<Vec<u64>>)
    ensures
        opt_numbers(r) == unsigned_items_member(json_content(*v), key@),
{
    let x = match json_get(v, key) {
        Some(x) => x,
        None => {
            return None;
        },
    };
    let items = match json_as_array(x) {
        Some(a) => a,
        None => {
            return None;
        },
    };
    let ghost cs = contents(items@);
    let mut out: Vec<u64> = Vec::new();
    let mut i: usize = 0;
    while i < items.len()
        invariant
            i <= items@.len(),
            cs == contents(items@),
            out@ == unsigned_items(cs.take(i as int)),
        decreases items.len() - i,
    {
        let n = json_as_u64(&items[i]);
        proof {
            assert(cs.take(i + 1).drop_last() =~= cs.take(i as int));
            assert(cs.take(i + 1).last() == json_content(items@[i as int]));
        }
        match n {
            Some(n) => {
                out.push(n);
            },
            None => {},
        }
        i = i + 1;
    }
    assert(cs.take(items.len() as int) =~= cs);
    Some(out)
}

} // verus!
