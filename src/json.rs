//! A plain tree of the JSON status payload, and the queries the status record
//! is built from.
use vstd::prelude::*;

use crate::text::text_eq;

verus! {

#[verifier::external_type_specification]
#[verifier::external_body]
pub struct ExJsonValue(serde_json::Value);

/// Relies on `Clone` of `serde_json::Value`, which copies the whole tree: an
/// equal value.
pub assume_specification[ <serde_json::Value as Clone>::clone ](v: &serde_json::Value) -> (r: serde_json::Value)
    ensures
        r == *v,
;

/// A JSON value. A number carries its value where it is an integer that fits
/// in `i64`.
pub enum JsonTree {
    Null,
    Bool(bool),
    Number(Option<i64>),
    Text(String),
    Array(Vec<JsonTree>),
    Object(Vec<(String, JsonTree)>),
}

/// One level of a `serde_json::Value`: its kind, scalar content, and children.
pub enum JsonNode {
    Null,
    Bool(bool),
    Number(Option<i64>),
    Text(String),
    Array(Vec<serde_json::Value>),
    Object(Vec<(String, serde_json::Value)>),
}

/// Relies on the variants of `serde_json::Value` and on `Number::as_i64`: takes
/// one level of the value apart. Nothing is stated of the result.
#[verifier::external_body]
fn json_node(v: &serde_json::Value) -> JsonNode {
    match v {
        serde_json::Value::Null => JsonNode::Null,
        serde_json::Value::Bool(b) => JsonNode::Bool(*b),
        serde_json::Value::Number(n) => JsonNode::Number(n.as_i64()),
        serde_json::Value::String(s) => JsonNode::Text(s.clone()),
        serde_json::Value::Array(a) => JsonNode::Array(a.clone()),
        serde_json::Value::Object(m) => JsonNode::Object(
            m.iter().map(|(k, x)| (k.clone(), x.clone())).collect(),
        ),
    }
}

/// Depth to which a value is turned into a tree. `serde_json::from_str` refuses
/// input nested 128 levels deep, so the tree of a parsed payload is complete.
pub const JSON_MAX_DEPTH: usize = 256;

/// The tree of `v`, down to `depth` levels; deeper values become `Null`.
fn tree_at_depth(v: &serde_json::Value, depth: usize) -> JsonTree
    decreases depth,
{
    if depth == 0 {
        return JsonTree::Null;
    }
    match json_node(v) {
        JsonNode::Null => JsonTree::Null,
        JsonNode::Bool(b) => JsonTree::Bool(b),
        JsonNode::Number(n) => JsonTree::Number(n),
        JsonNode::Text(s) => JsonTree::Text(s),
        JsonNode::Array(items) => {
            let mut out: Vec<JsonTree> = Vec::new();
            let mut i: usize = 0;
            while i < items.len()
                invariant
                    depth > 0,
                decreases items.len() - i,
            {
                out.push(tree_at_depth(&items[i], depth - 1));
                i = i + 1;
            }
            JsonTree::Array(out)
        },
        JsonNode::Object(entries) => {
            let mut out: Vec<(String, JsonTree)> = Vec::new();
            let mut i: usize = 0;
            while i < entries.len()
                invariant
                    depth > 0,
                decreases entries.len() - i,
            {
                let (k, x) = &entries[i];
                out.push((k.clone(), tree_at_depth(x, depth - 1)));
                i = i + 1;
            }
            JsonTree::Object(out)
        },
    }
}

/// The plain tree of a parsed JSON value.
pub fn json_tree(v: &serde_json::Value) -> JsonTree {
    tree_at_depth(v, JSON_MAX_DEPTH)
}

/// The value an optional reference points to.
pub open spec fn opt_ref(t: Option<&JsonTree>) -> Option<JsonTree> {
    match t {
        Some(x) => Some(*x),
        None => None,
    }
}

/// Value of the first entry named `key`.
pub open spec fn entry_value(es: Seq<(String, JsonTree)>, key: Seq<char>) -> Option<JsonTree>
    decreases es.len(),
{
    if es.len() == 0 {
        None
    } else if es[0].0@ == key {
        Some(es[0].1)
    } else {
        entry_value(es.drop_first(), key)
    }
}

/// The member `key` of an object; absent for anything else.
pub open spec fn member(t: Option<JsonTree>, key: Seq<char>) -> Option<JsonTree> {
    match t {
        Some(JsonTree::Object(es)) => entry_value(es@, key),
        _ => None,
    }
}

/// The text of a string value.
pub open spec fn text_of(t: Option<JsonTree>) -> Option<Seq<char>> {
    match t {
        Some(JsonTree::Text(s)) => Some(s@),
        _ => None,
    }
}

/// The value of an integer that fits in `i64`.
pub open spec fn int_of(t: Option<JsonTree>) -> Option<i64> {
    match t {
        Some(JsonTree::Number(n)) => n,
        _ => None,
    }
}

/// The items of an array.
pub open spec fn items_of(t: Option<JsonTree>) -> Option<Seq<JsonTree>> {
    match t {
        Some(JsonTree::Array(v)) => Some(v@),
        _ => None,
    }
}

/// The member `key` of `t`, when `t` is an object that has one.
pub fn get_member<'a>(t: Option<&'a JsonTree>, key: &str) -> (r: Option<&'a JsonTree>)
    ensures
        opt_ref(r) == member(opt_ref(t), key@),
{
    match t {
        Some(JsonTree::Object(es)) => {
            let mut i: usize = 0;
            assert(es@.skip(0) =~= es@);
            while i < es.len()
                invariant
                    i <= es@.len(),
                    member(opt_ref(t), key@) == entry_value(es@.skip(i as int), key@),
                decreases es.len() - i,
            {
                assert(es@.skip(i as int).drop_first() =~= es@.skip(i + 1));
                let (k, x) = &es[i];
                assert(es@.skip(i as int)[0] == es@[i as int]);
                if text_eq(k.as_str(), key) {
                    return Some(x);
                }
                i = i + 1;
            }
            None
        },
        _ => None,
    }
}

/// The text of `t`, when it is a string.
pub fn get_text(t: Option<&JsonTree>) -> (r: Option<String>)
    ensures
        match r {
            Some(s) => text_of(opt_ref(t)) == Some(s@),
            None => text_of(opt_ref(t)) is None,
        },
{
    match t {
        Some(JsonTree::Text(s)) => Some(s.clone()),
        _ => None,
    }
}

/// The value of `t`, when it is an integer that fits in `i64`.
pub fn get_int(t: Option<&JsonTree>) -> (r: Option<i64>)
    ensures
        r == int_of(opt_ref(t)),
{
    match t {
        Some(JsonTree::Number(n)) => *n,
        _ => None,
    }
}

/// The items of `t`, when it is an array.
pub fn get_items<'a>(t: Option<&'a JsonTree>) -> (r: Option<&'a Vec<JsonTree>>)
    ensures
        match r {
            Some(v) => items_of(opt_ref(t)) == Some(v@),
            None => items_of(opt_ref(t)) is None,
        },
{
    match t {
        Some(JsonTree::Array(v)) => Some(v),
        _ => None,
    }
}

} // verus!
