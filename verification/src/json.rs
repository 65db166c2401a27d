//! Trusted boundary to `serde_json` and `serde_json_path`.
//!
//! The chain-resolution logic needs three things from the outside: whether a
//! string parses as a JSON Path query, whether a string parses as a JSON
//! document, and which single node (if any) a query selects out of a
//! document. What those functions return takes pages to state, but each is a
//! pure function of its arguments, so each result is given an uninterpreted
//! name here and every contract in the crate speaks of those names.

use vstd::prelude::*;

verus! {

#[verifier::external_type_specification]
#[verifier::external_body]
pub struct ExJsonPath(serde_json_path::JsonPath);

#[verifier::external_type_specification]
#[verifier::external_body]
pub struct ExParseError(serde_json_path::ParseError);

#[verifier::external_type_specification]
#[verifier::external_body]
pub struct ExExactlyOneError(serde_json_path::ExactlyOneError);

#[verifier::external_type_specification]
#[verifier::external_body]
pub struct ExJsonValue(serde_json::Value);

#[verifier::external_type_specification]
#[verifier::external_body]
pub struct ExJsonError(serde_json::Error);

/// What `serde_json_path::JsonPath::parse` returns on a given query string:
/// `Some` parsed query exactly when the parser accepts the string.
pub uninterp spec fn parsed_path(path: Seq<char>) -> Option<serde_json_path::JsonPath>;

/// What `serde_json::from_str::<Value>` returns on a given document string:
/// `Some` value exactly when the parser accepts the string.
pub uninterp spec fn parsed_document(body: Seq<char>) -> Option<serde_json::Value>;

/// What querying a document with a parsed JSON Path yields when the query is
/// required to select exactly one node: `Some` node when the node list has
/// length one, `None` when it is empty or has two or more entries.
pub uninterp spec fn queried_node(
    path: serde_json_path::JsonPath,
    doc: serde_json::Value,
) -> Option<serde_json::Value>;

/// The text form of a selected JSON node: the unquoted contents for a JSON
/// string, and the compact serialization for every other kind of value.
pub uninterp spec fn node_text(node: serde_json::Value) -> Seq<char>;

/// Whether a string parses as a JSON Path query.
pub open spec fn json_path_ok(path: Seq<char>) -> bool {
    parsed_path(path) is Some
}

/// Whether a string parses as a JSON document.
pub open spec fn json_doc_ok(body: Seq<char>) -> bool {
    parsed_document(body) is Some
}

/// The text of the unique node that `path` selects out of `body`, or `None`
/// when the query matches no node or more than one.
pub open spec fn json_selected(path: Seq<char>, body: Seq<char>) -> Option<Seq<char>>
    recommends
        json_path_ok(path),
        json_doc_ok(body),
{
    match queried_node(parsed_path(path)->0, parsed_document(body)->0) {
        Option::Some(node) => Option::Some(node_text(node)),
        Option::None => Option::None,
    }
}

/// Relies on `serde_json_path::JsonPath::parse`, the RFC 9535 JSON Path
/// parser: whether it accepts a query, and what it parses it to, depend on
/// the query string alone.
#[verifier::external_body]
pub fn parse_path(path: &str) -> (r: Result<
    serde_json_path::JsonPath,
    serde_json_path::ParseError,
>)
    ensures
        r is Ok <==> parsed_path(path@) is Some,
        r matches Ok(p) ==> Option::Some(p) == parsed_path(path@),
{
    serde_json_path::JsonPath::parse(path)
}

/// Relies on `serde_json::from_str::<Value>`, the JSON parser: whether it
/// accepts a document, and what it parses it to, depend on the document
/// string alone.
#[verifier::external_body]
pub fn parse_document(body: &str) -> (r: Result<serde_json::Value, serde_json::Error>)
    ensures
        r is Ok <==> parsed_document(body@) is Some,
        r matches Ok(v) ==> Option::Some(v) == parsed_document(body@),
{
    serde_json::from_str::<serde_json::Value>(body)
}

/// Relies on `serde_json_path::JsonPath::query` and
/// `NodeList::exactly_one`: the query selects a list of nodes determined by
/// the path and the document alone, and `exactly_one` hands the node back
/// exactly when that list has length one.
#[verifier::external_body]
pub fn query_exactly_one(
    path: &serde_json_path::JsonPath,
    doc: &serde_json::Value,
) -> (r: Result<serde_json::Value, serde_json_path::ExactlyOneError>)
    ensures
        r is Ok <==> queried_node(*path, *doc) is Some,
        r matches Ok(v) ==> Option::Some(v) == queried_node(*path, *doc),
{
    path.query(doc).exactly_one().map(|node| node.clone())
}

/// Relies on `serde_json::Value`'s `Display`: the compact text of a JSON
/// value depends on the value alone. A JSON string is handed back unquoted.
#[verifier::external_body]
pub fn node_to_text(node: &serde_json::Value) -> (r: String)
    ensures
        r@ == node_text(*node),
{
    match node {
        serde_json::Value::String(s) => s.clone(),
        other => other.to_string(),
    }
}

} // verus!
