//! Reading fields of JSON texts, parsed by the `serde_json` crate.
use crate::fspath::opt_chars;
use crate::strmap::string_views;
use vstd::prelude::*;

verus! {

/// The string `serde_json` finds in the text `content` by following the
/// object keys `path` (`None` when the text is not JSON or the path leads to
/// no string).
pub uninterp spec fn json_string_at_path(content: Seq<char>, path: Seq<Seq<char>>) -> Option<Seq<char>>;

/// The JSON text, as `serde_json::to_vec` writes it, of the value
/// `serde_json` finds in the text `content` by following the object keys
/// `path` (`None` when the text is not JSON or the path leads nowhere).
/// Objects are written in key order, as `serde_json` keeps them sorted.
pub uninterp spec fn json_value_bytes_at(content: Seq<char>, path: Seq<Seq<char>>) -> Option<Seq<u8>>;

/// The bytes of an optional byte vector.
pub open spec fn opt_bytes(o: Option<Vec<u8>>) -> Option<Seq<u8>> {
    match o {
        Some(b) => Some(b@),
        None => None,
    }
}

/// The values of the object under the key `key` of the text `content`, in
/// key order (`serde_json` keeps objects in a sorted map), each as its string when it is one (`None` when the
/// text is not JSON; empty when there is no such object).
pub uninterp spec fn json_object_values_at(content: Seq<char>, key: Seq<char>) -> Option<
    Seq<Option<Seq<char>>>,
>;

/// The message `serde_json` gives (the `Display` of its error) when the
/// text `content` is not JSON; `None` when it is.
pub uninterp spec fn json_syntax_error(content: Seq<char>) -> Option<Seq<char>>;

/// The keys of the object under the key `key` of the text `content`, in key
/// order, as `serde_json`'s sorted map holds them (`None` when the text is not JSON; empty when there is no
/// such object).
pub uninterp spec fn json_object_keys_at(content: Seq<char>, key: Seq<char>) -> Option<Seq<Seq<char>>>;

/// The keys of a path, by their characters.
pub open spec fn path_view(path: Seq<&str>) -> Seq<Seq<char>> {
    Seq::new(path.len(), |i: int| path[i]@)
}

/// The optional strings of a list, by their characters.
pub open spec fn opt_strings_view(v: Seq<Option<String>>) -> Seq<Option<Seq<char>>> {
    Seq::new(v.len(), |i: int| opt_chars(v[i]))
}

/// Parses `content` with `serde_json::from_str` and follows the object keys
/// `path` with `Value::get`, returning the string found there. The contract
/// names the result and states nothing more.
#[verifier::external_body]
pub(crate) fn json_string_at(content: &str, path: &[&str]) -> (r: Option<String>)
    ensures
        opt_chars(r) == json_string_at_path(content@, path_view(path@)),
{
    let root = serde_json::from_str::<serde_json::Value>(content).ok()?;
    let mut v = &root;
    for key in path {
        v = v.get(*key)?;
    }
    v.as_str().map(String::from)
}

/// Parses `content` with `serde_json::from_str`, follows the object keys
/// `path` with `Value::get`, and serializes the value found there with
/// `serde_json::to_vec`. The contract names the result and states nothing
/// more.
#[verifier::external_body]
pub(crate) fn json_value_at(content: &str, path: &[&str]) -> (r: Option<Vec<u8>>)
    ensures
        opt_bytes(r) == json_value_bytes_at(content@, path_view(path@)),
{
    let root = serde_json::from_str::<serde_json::Value>(content).ok()?;
    let mut v = &root;
    for key in path {
        v = v.get(*key)?;
    }
    serde_json::to_vec(v).ok()
}

/// Parses `content` with `serde_json::from_str` and returns the values of
/// the object under `key` (`Value::as_object`), in key order, each read with
/// `Value::as_str`. The contract names the result and states nothing more.
#[verifier::external_body]
pub(crate) fn json_object_values(content: &str, key: &str) -> (r: Option<Vec<Option<String>>>)
    ensures
        match r {
            Some(v) => json_object_values_at(content@, key@) == Some(opt_strings_view(v@)),
            None => json_object_values_at(content@, key@) is None,
        },
{
    let v = serde_json::from_str::<serde_json::Value>(content).ok()?;
    match v.get(key).and_then(|o| o.as_object()) {
        Some(o) => Some(o.values().map(|x| x.as_str().map(String::from)).collect()),
        None => Some(Vec::new()),
    }
}

/// Parses `content` with `serde_json::from_str` and returns the text of the
/// error when it fails. The contract names the result and states nothing more.
#[verifier::external_body]
pub(crate) fn json_syntax_check(content: &str) -> (r: Option<String>)
    ensures
        opt_chars(r) == json_syntax_error(content@),
{
    match serde_json::from_str::<serde_json::Value>(content) {
        Ok(_) => None,
        Err(e) => Some(e.to_string()),
    }
}

/// Parses `content` with `serde_json::from_str` and returns the keys of the
/// object under `key` (`Value::as_object`), in key order. The contract names the
/// result and states nothing more.
#[verifier::external_body]
pub(crate) fn json_object_keys(content: &str, key: &str) -> (r: Option<Vec<String>>)
    ensures
        match r {
            Some(v) => json_object_keys_at(content@, key@) == Some(string_views(v@)),
            None => json_object_keys_at(content@, key@) is None,
        },
{
    let v = serde_json::from_str::<serde_json::Value>(content).ok()?;
    match v.get(key).and_then(|o| o.as_object()) {
        Some(o) => Some(o.keys().cloned().collect()),
        None => Some(Vec::new()),
    }
}

} // verus!
