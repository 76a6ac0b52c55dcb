//! Reading JSON.
use crate::decimal::{binary64_units, Decimal};
use vstd::prelude::*;

verus! {

/// `serde_json::Value`, a parsed JSON document.
#[verifier::external_type_specification]
#[verifier::external_body]
pub struct ExValue(serde_json::Value);

/// What a JSON document holds. A number is given by the bits of the binary floating-point number
/// that it is read as.
pub enum JsonTree {
    Null,
    Flag(bool),
    Number(u64),
    Text(Seq<char>),
    List(Seq<JsonTree>),
    Fields(Map<Seq<char>, JsonTree>),
}

/// What a parsed document holds.
pub uninterp spec fn json_tree(value: serde_json::Value) -> JsonTree;

/// What `serde_json::from_str` makes of a text: what the document holds, or what is wrong with it.
pub uninterp spec fn json_parsed(text: Seq<char>) -> Result<JsonTree, Seq<char>>;

/// The field of an object.
pub open spec fn field(tree: JsonTree, key: Seq<char>) -> Option<JsonTree> {
    match tree {
        JsonTree::Fields(fields) => if fields.contains_key(key) {
            Some(fields[key])
        } else {
            None
        },
        _ => None,
    }
}

/// The field of an object that may not be there.
pub open spec fn opt_field(tree: Option<JsonTree>, key: Seq<char>) -> Option<JsonTree> {
    match tree {
        Some(t) => field(t, key),
        None => None,
    }
}

/// The items of a list that may not be there, or be something else.
pub open spec fn opt_list(tree: Option<JsonTree>) -> Option<Seq<JsonTree>> {
    match tree {
        Some(JsonTree::List(items)) => Some(items),
        _ => None,
    }
}

/// The text of a string that may not be there, or be something else.
pub open spec fn opt_string(tree: Option<JsonTree>) -> Option<Seq<char>> {
    match tree {
        Some(JsonTree::Text(text)) => Some(text),
        _ => None,
    }
}

/// The value of a number that may not be there, or be something else.
pub open spec fn opt_number(tree: Option<JsonTree>) -> Option<Decimal> {
    match tree {
        Some(JsonTree::Number(bits)) => match binary64_units(bits) {
            Some(units) => Some(Decimal { units: units as i64 }),
            None => None,
        },
        _ => None,
    }
}

pub open spec fn opt_tree(value: Option<&serde_json::Value>) -> Option<JsonTree> {
    match value {
        Some(v) => Some(json_tree(*v)),
        None => None,
    }
}

/// `serde_json::from_str`: the outcome is a function of the text alone.
#[verifier::external_body]
pub(crate) fn parse(text: &str) -> (r: Result<serde_json::Value, String>)
    ensures
        match json_parsed(text@) {
            Ok(tree) => r matches Ok(value) && json_tree(value) == tree,
            Err(reason) => r matches Err(e) && e@ == reason,
        },
{
    match serde_json::from_str(text) {
        Ok(value) => Ok(value),
        Err(e) => Err(e.to_string()),
    }
}

/// `Value::get` with a string: the field of that name of an object, nothing of anything else.
#[verifier::external_body]
fn get<'a>(value: &'a serde_json::Value, key: &str) -> (r: Option<&'a serde_json::Value>)
    ensures
        opt_tree(r) == field(json_tree(*value), key@),
{
    value.get(key)
}

/// `Value::as_array`: the items of a list, nothing of anything else.
#[verifier::external_body]
fn as_list(value: &serde_json::Value) -> (r: Option<&Vec<serde_json::Value>>)
    ensures
        match json_tree(*value) {
            JsonTree::List(items) => r matches Some(list) && list@.len() == items.len() && forall|
                i: int,
            |
                0 <= i < items.len() ==> json_tree(#[trigger] list@[i]) == items[i],
            _ => r is None,
        },
{
    value.as_array()
}

/// `Value::as_str`: the text of a string, nothing of anything else.
#[verifier::external_body]
fn as_text(value: &serde_json::Value) -> (r: Option<&str>)
    ensures
        match json_tree(*value) {
            JsonTree::Text(text) => r matches Some(s) && s@ == text,
            _ => r is None,
        },
{
    value.as_str()
}

/// `Value::as_f64`: the number as a binary floating-point number, here by its bits; nothing of
/// anything else.
#[verifier::external_body]
fn as_number_bits(value: &serde_json::Value) -> (r: Option<u64>)
    ensures
        match json_tree(*value) {
            JsonTree::Number(bits) => r == Some(bits),
            _ => r is None,
        },
{
    match value.as_f64() {
        Some(x) => Some(x.to_bits()),
        None => None,
    }
}

pub(crate) fn field_of<'a>(value: Option<&'a serde_json::Value>, key: &str) -> (r: Option<
    &'a serde_json::Value,
>)
    ensures
        opt_tree(r) == opt_field(opt_tree(value), key@),
{
    match value {
        Some(v) => get(v, key),
        None => None,
    }
}

pub(crate) fn list_of(value: Option<&serde_json::Value>) -> (r: Option<&Vec<serde_json::Value>>)
    ensures
        match opt_list(opt_tree(value)) {
            Some(items) => r matches Some(list) && list@.map_values(
                |v: serde_json::Value| json_tree(v),
            ) == items,
            None => r is None,
        },
{
    match value {
        Some(v) => {
            let r: Option<&Vec<serde_json::Value>> = as_list(v);
            if let Some(list) = r {
                assert(list@.map_values(|v: serde_json::Value| json_tree(v)) =~= opt_list(
                    opt_tree(value),
                )->0);
            }
            r
        },
        None => None,
    }
}

pub(crate) fn string_of(value: Option<&serde_json::Value>) -> (r: Option<String>)
    ensures
        crate::text::opt_text(r) == opt_string(opt_tree(value)),
{
    match value {
        Some(v) => match as_text(v) {
            Some(s) => Some(s.to_owned()),
            None => None,
        },
        None => None,
    }
}

pub(crate) fn number_of(value: Option<&serde_json::Value>) -> (r: Option<Decimal>)
    ensures
        r == opt_number(opt_tree(value)),
{
    match value {
        Some(v) => match as_number_bits(v) {
            Some(bits) => Decimal::from_binary64(bits),
            None => None,
        },
        None => None,
    }
}

/// A field is found in an object that has it, and nowhere else; a list, a text and a number are
/// read from a list, a text and a number, and from nothing else.
pub proof fn law_json_is_read_by_kind(
    fields: Map<Seq<char>, JsonTree>,
    key: Seq<char>,
    items: Seq<JsonTree>,
    text: Seq<char>,
    tree: JsonTree,
)
    ensures
        fields.contains_key(key) ==> opt_field(Some(JsonTree::Fields(fields)), key) == Some(
            fields[key],
        ),
        !fields.contains_key(key) ==> opt_field(Some(JsonTree::Fields(fields)), key) is None,
        !(tree is Fields) ==> opt_field(Some(tree), key) is None,
        opt_field(None, key) is None,
        opt_list(Some(JsonTree::List(items))) == Some(items),
        !(tree is List) ==> opt_list(Some(tree)) is None,
        opt_list(None) is None,
        opt_string(Some(JsonTree::Text(text))) == Some(text),
        !(tree is Text) ==> opt_string(Some(tree)) is None,
        opt_string(None) is None,
        !(tree is Number) ==> opt_number(Some(tree)) is None,
        opt_number(None) is None,
{
}

/// A number is read as the number with its bits, where they stand for one.
pub proof fn law_json_numbers_are_read(bits: u64)
    ensures
        opt_number(Some(JsonTree::Number(bits))) is Some <==> binary64_units(bits) is Some,
        opt_number(Some(JsonTree::Number(bits))) matches Some(d) ==> binary64_units(bits) == Some(
            d.units as int,
        ),
{
}

} // verus!
