//! A JSON document as plain data, with a trusted boundary to `serde_json`
//! for parsing and rendering.
//!
//! Every JSON value this library reads or writes — configuration files,
//! the verification response, the two storage documents — is carried as a
//! [`Json`] value, so all logic over documents is verified; only the
//! translation between text and tree is delegated.

use vstd::prelude::*;
use crate::text::str_eq;

verus! {

/// A JSON value. Object entries keep the order the parser yielded them
/// in; lookups take the first entry with a matching key. A number is
/// carried as its literal rendering, since no configuration or protocol
/// field read by this library is numeric.
pub enum Json {
    Null,
    Bool(bool),
    Num(String),
    Str(String),
    Arr(Vec<Json>),
    Obj(Vec<(String, Json)>),
}

/// The value under `key` in an object's entry list: the first entry whose
/// key matches, if any.
pub open spec fn spec_obj_get(entries: Seq<(String, Json)>, key: Seq<char>) -> Option<Json>
    decreases entries.len(),
{
    if entries.len() == 0 {
        None
    } else if entries[0].0@ == key {
        Some(entries[0].1)
    } else {
        spec_obj_get(entries.drop_first(), key)
    }
}

/// Looks up `key` among an object's entries.
pub fn obj_get<'a>(entries: &'a Vec<(String, Json)>, key: &str) -> (r: Option<&'a Json>)
    ensures
        match r {
            Some(j) => spec_obj_get(entries@, key@) == Some(*j),
            None => spec_obj_get(entries@, key@) is None,
        },
{
    let len = entries.len();
    let mut i: usize = 0;
    proof {
        assert(entries@.skip(0) =~= entries@);
    }
    while i < len
        invariant
            len == entries@.len(),
            i <= len,
            spec_obj_get(entries@.skip(i as int), key@) == spec_obj_get(entries@, key@),
        decreases len - i,
    {
        proof {
            assert(entries@.skip(i as int)[0] == entries@[i as int]);
            assert(entries@.skip(i as int).drop_first() =~= entries@.skip(i + 1));
        }
        if str_eq(entries[i].0.as_str(), key) {
            return Some(&entries[i].1);
        }
        i = i + 1;
    }
    proof {
        assert(entries@.skip(len as int) =~= Seq::<(String, Json)>::empty());
    }
    None
}

/// Declares `serde_json::Value`, the parser's own tree type, so that the
/// two conversion helpers below may carry it; it is opaque here.
#[verifier::external_type_specification]
#[verifier::external_body]
pub struct ExValue(serde_json::Value);

/// What `serde_json` parses `text` into, if it is well-formed JSON. The
/// parse is a pure function of the text.
pub uninterp spec fn spec_parse_json(text: Seq<char>) -> Option<Json>;

/// Relies on `serde_json::from_str::<serde_json::Value>` to parse JSON
/// text; the resulting tree is carried over variant by variant.
#[verifier::external_body]
pub(crate) fn parse_json(text: &str) -> (r: Option<Json>)
    ensures
        r == spec_parse_json(text@),
{
    serde_json::from_str::<serde_json::Value>(text).ok().map(json_of_value)
}

/// Relies on the `serde_json::Value` enum: each variant is carried over
/// one for one; a number is kept as its literal rendering. Called only
/// from the parsing boundary; nothing is assumed of it.
#[verifier::external_body]
fn json_of_value(v: serde_json::Value) -> Json {
    match v {
        serde_json::Value::Null => Json::Null,
        serde_json::Value::Bool(b) => Json::Bool(b),
        serde_json::Value::Number(n) => Json::Num(n.to_string()),
        serde_json::Value::String(s) => Json::Str(s),
        serde_json::Value::Array(a) => Json::Arr(a.into_iter().map(json_of_value).collect()),
        serde_json::Value::Object(m) => Json::Obj(
            m.into_iter().map(|(k, x)| (k, json_of_value(x))).collect(),
        ),
    }
}

/// Relies on the `serde_json::Value` constructors: the inverse carrying,
/// variant by variant. A number that does not parse back becomes null;
/// this library never renders numbers. Called only from the rendering
/// boundary; nothing is assumed of it.
#[verifier::external_body]
fn value_of_json(j: &Json) -> serde_json::Value {
    match j {
        Json::Null => serde_json::Value::Null,
        Json::Bool(b) => serde_json::Value::Bool(*b),
        Json::Num(n) => n.parse::<serde_json::Number>().map(serde_json::Value::Number).unwrap_or(
            serde_json::Value::Null,
        ),
        Json::Str(s) => serde_json::Value::String(s.clone()),
        Json::Arr(a) => serde_json::Value::Array(a.iter().map(value_of_json).collect()),
        Json::Obj(m) => serde_json::Value::Object(
            m.iter().map(|(k, x)| (k.clone(), value_of_json(x))).collect(),
        ),
    }
}

/// What an object's entries decode to when every value must be a string:
/// the entries as given, keys kept in order.
pub open spec fn spec_decode_string_entries(entries: Seq<(String, Json)>) -> Option<
    Seq<(Seq<char>, Seq<char>)>,
>
    decreases entries.len(),
{
    if entries.len() == 0 {
        Some(Seq::empty())
    } else {
        match entries[0].1 {
            Json::Str(s) => match spec_decode_string_entries(entries.drop_first()) {
                Some(rest) => Some(seq![(entries[0].0@, s@)] + rest),
                None => None,
            },
            _ => None,
        }
    }
}

/// Decodes an object's entries as a string-to-string mapping.
pub fn decode_string_entries(entries: &Vec<(String, Json)>) -> (r: Option<Vec<(String, String)>>)
    ensures
        match r {
            Some(v) => {
                &&& spec_decode_string_entries(entries@) == Some(v.deep_view())
                &&& v@.len() == entries@.len()
                &&& forall|j: int| 0 <= j < v@.len() ==> v@[j].0@ == entries@[j].0@
            },
            None => spec_decode_string_entries(entries@) is None,
        },
{
    let len = entries.len();
    let mut out: Vec<(String, String)> = Vec::new();
    let mut i: usize = 0;
    proof {
        assert(entries@.skip(0) =~= entries@);
        if spec_decode_string_entries(entries@) is Some {
            assert(out.deep_view() + spec_decode_string_entries(entries@)->Some_0
                =~= spec_decode_string_entries(entries@)->Some_0);
        }
    }
    while i < len
        invariant
            len == entries@.len(),
            i <= len,
            out@.len() == i,
            forall|j: int| 0 <= j < i ==> out@[j].0@ == entries@[j].0@,
            spec_decode_string_entries(entries@) == (match spec_decode_string_entries(
                entries@.skip(i as int),
            ) {
                Some(rest) => Some(out.deep_view() + rest),
                None => None::<Seq<(Seq<char>, Seq<char>)>>,
            }),
        decreases len - i,
    {
        proof {
            assert(entries@.skip(i as int)[0] == entries@[i as int]);
            assert(entries@.skip(i as int).drop_first() =~= entries@.skip(i + 1));
        }
        let s = match &entries[i].1 {
            Json::Str(s) => s.clone(),
            _ => {
                proof {
                    assert(spec_decode_string_entries(entries@.skip(i as int)) is None);
                }
                return None;
            },
        };
        let pair = (entries[i].0.clone(), s);
        let ghost pre = out.deep_view();
        let ghost sv = pair.1@;
        out.push(pair);
        proof {
            assert(out.deep_view() =~= pre.push((entries@[i as int].0@, sv)));
            if spec_decode_string_entries(entries@.skip(i + 1)) is Some {
                let rest2 = spec_decode_string_entries(entries@.skip(i + 1))->Some_0;
                assert(spec_decode_string_entries(entries@.skip(i as int)) == Some(
                    seq![(entries@[i as int].0@, sv)] + rest2,
                ));
                assert(pre + (seq![(entries@[i as int].0@, sv)] + rest2) =~= out.deep_view()
                    + rest2);
            }
        }
        i = i + 1;
    }
    proof {
        assert(entries@.skip(len as int) =~= Seq::<(String, Json)>::empty());
        assert(out.deep_view() + Seq::<(Seq<char>, Seq<char>)>::empty() =~= out.deep_view());
    }
    Some(out)
}

/// The compact rendering `serde_json::to_string` gives a JSON tree; a
/// pure function of the tree.
pub uninterp spec fn spec_render_json(j: Json) -> Seq<char>;

/// Relies on `serde_json::to_string`: rendering a JSON value cannot fail
/// and depends on the tree alone.
#[verifier::external_body]
pub(crate) fn render_json(j: &Json) -> (r: String)
    ensures
        r@ == spec_render_json(*j),
{
    serde_json::to_string(&value_of_json(j)).unwrap_or_default()
}

/// The pretty rendering `serde_json::to_string_pretty` gives a JSON tree;
/// a pure function of the tree.
pub uninterp spec fn spec_render_json_pretty(j: Json) -> Seq<char>;

/// Relies on `serde_json::to_string_pretty`: rendering a JSON value
/// cannot fail and depends on the tree alone.
#[verifier::external_body]
pub(crate) fn render_json_pretty(j: &Json) -> (r: String)
    ensures
        r@ == spec_render_json_pretty(*j),
{
    serde_json::to_string_pretty(&value_of_json(j)).unwrap_or_default()
}

} // verus!
