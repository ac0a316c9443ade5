//! Parameters of the protocol, decoded from and encoded to JSON by
//! `serde_json` with the types of `lsp_types`.

use crate::vfs::text_of;
use lsp_server::RequestId;
use lsp_types::{
    CancelParams, ConfigurationItem, ConfigurationParams, DidChangeTextDocumentParams,
    DidCloseTextDocumentParams, DidOpenTextDocumentParams, NumberOrString,
    TextDocumentContentChangeEvent,
};
use serde_json::Value;
use vstd::prelude::*;

verus! {

/// One edit of a document as the client sends it.
#[verifier::external_type_specification]
pub struct ExTextDocumentContentChangeEvent(TextDocumentContentChangeEvent);

/// The request that the parameters of a cancellation name, where they decode.
pub uninterp spec fn cancel_params(params: Value) -> Option<RequestId>;

/// URI and text of the document that the parameters of `textDocument/didOpen`
/// hold, where they decode.
pub uninterp spec fn open_params(params: Value) -> Option<(Seq<char>, Seq<char>)>;

/// URI of the document that the parameters of `textDocument/didClose` hold,
/// where they decode.
pub uninterp spec fn close_params(params: Value) -> Option<Seq<char>>;

/// URI of the document and the edits that the parameters of
/// `textDocument/didChange` hold, where they decode.
pub uninterp spec fn change_params(params: Value) -> Option<
    (Seq<char>, Seq<TextDocumentContentChangeEvent>),
>;

/// Why the parameters are not those of a request without parameters; none
/// where they are.
pub uninterp spec fn unit_params_error(params: Value) -> Option<Seq<char>>;

/// Whether a JSON value is null.
pub uninterp spec fn value_is_null(value: Value) -> bool;

/// The null of JSON.
pub open spec fn null_value() -> Value {
    choose|value: Value| value_is_null(value)
}

/// What is said in refusal of parameters that are not null, where a request
/// takes none.
pub open spec fn unit_refusal(params: Value) -> Seq<char> {
    match unit_params_error(params) {
        Some(text) => text,
        None => Seq::empty(),
    }
}

/// A URI as the protocol's types hold it: carried through.
#[verifier::external_type_specification]
#[verifier::external_body]
pub struct ExUrl(lsp_types::Url);

/// One thing asked of the client's configuration: a section, for a scope.
#[verifier::external_type_specification]
pub struct ExConfigurationItem(ConfigurationItem);

/// The parameters of the question for the configuration.
#[verifier::external_type_specification]
pub struct ExConfigurationParams(ConfigurationParams);

/// What a question for the configuration asks: the scope and the section
/// of each item.
pub open spec fn question_view(params: ConfigurationParams) -> Seq<
    (Option<lsp_types::Url>, Option<Seq<char>>),
> {
    Seq::new(
        params.items@.len(),
        |i: int| (params.items@[i].scope_uri, text_of(params.items@[i].section)),
    )
}

/// The JSON value of a question for the configuration.
pub uninterp spec fn configuration_params_json(
    question: Seq<(Option<lsp_types::Url>, Option<Seq<char>>)>,
) -> Value;

/// The values that a JSON value lists, where it is a list.
pub uninterp spec fn value_list(value: Value) -> Option<Seq<Value>>;

/// The elements of an optional list of values.
pub open spec fn list_view(list: Option<Vec<Value>>) -> Option<Seq<Value>> {
    match list {
        Some(values) => Some(values@),
        None => None,
    }
}

/// The texts of a pair of strings.
pub open spec fn pair_text(pair: Option<(String, String)>) -> Option<(Seq<char>, Seq<char>)> {
    match pair {
        Some((a, b)) => Some((a@, b@)),
        None => None,
    }
}

/// A URI with the edits of its document, as views.
pub open spec fn edits_text(r: Option<(String, Vec<TextDocumentContentChangeEvent>)>) -> Option<
    (Seq<char>, Seq<TextDocumentContentChangeEvent>),
> {
    match r {
        Some((uri, edits)) => Some((uri@, edits@)),
        None => None,
    }
}

/// Decodes `lsp_types::CancelParams` with `serde_json::from_value` and makes
/// the request identifier of the number or string in it.
#[verifier::external_body]
pub(crate) fn decode_cancel(params: Value) -> (id: Option<RequestId>)
    ensures
        id == cancel_params(params),
{
    let decoded = serde_json::from_value::<CancelParams>(params).ok()?;
    Some(
        match decoded.id {
            NumberOrString::Number(id) => RequestId::from(id),
            NumberOrString::String(id) => RequestId::from(id),
        },
    )
}

/// Decodes `lsp_types::DidOpenTextDocumentParams` with
/// `serde_json::from_value` and hands out the document's URI and text.
#[verifier::external_body]
pub(crate) fn decode_open(params: Value) -> (doc: Option<(String, String)>)
    ensures
        pair_text(doc) == open_params(params),
{
    let decoded = serde_json::from_value::<DidOpenTextDocumentParams>(params).ok()?;
    Some((String::from(decoded.text_document.uri), decoded.text_document.text))
}

/// Decodes `lsp_types::DidCloseTextDocumentParams` with
/// `serde_json::from_value` and hands out the document's URI.
#[verifier::external_body]
pub(crate) fn decode_close(params: Value) -> (uri: Option<String>)
    ensures
        text_of(uri) == close_params(params),
{
    let decoded = serde_json::from_value::<DidCloseTextDocumentParams>(params).ok()?;
    Some(String::from(decoded.text_document.uri))
}

/// Decodes `lsp_types::DidChangeTextDocumentParams` with
/// `serde_json::from_value` and hands out the document's URI and the edits.
#[verifier::external_body]
pub(crate) fn decode_change(params: Value) -> (doc: Option<
    (String, Vec<TextDocumentContentChangeEvent>),
>)
    ensures
        edits_text(doc) == change_params(params),
{
    let decoded = serde_json::from_value::<DidChangeTextDocumentParams>(params).ok()?;
    Some((String::from(decoded.text_document.uri), decoded.content_changes))
}

/// Decodes `()` with `serde_json::from_value` and hands out the decoder's
/// message where it fails.
#[verifier::external_body]
pub(crate) fn decode_unit(params: Value) -> (error: Option<String>)
    ensures
        text_of(error) == unit_params_error(params),
{
    serde_json::from_value::<()>(params).err().map(|e| e.to_string())
}

/// Decodes a list of JSON values with `serde_json::from_value`.
#[verifier::external_body]
pub(crate) fn decode_values(value: Value) -> (list: Option<Vec<Value>>)
    ensures
        list_view(list) == value_list(value),
{
    serde_json::from_value::<Vec<Value>>(value).ok()
}

/// `Value::is_null` says whether a JSON value is null.
#[verifier::external_body]
pub(crate) fn json_is_null(value: &Value) -> (null: bool)
    ensures
        null == value_is_null(*value),
{
    value.is_null()
}

/// `serde_json::to_value` makes of `()` the null of JSON, which is one value.
#[verifier::external_body]
pub(crate) fn encode_unit() -> (json: Value)
    ensures
        value_is_null(json),
        forall|other: Value| value_is_null(other) ==> other == json,
{
    serde_json::to_value(()).unwrap()
}

/// `Value::default` is the null of JSON, which is one value.
#[verifier::external_body]
pub(crate) fn default_json() -> (json: Value)
    ensures
        value_is_null(json),
        forall|other: Value| value_is_null(other) ==> other == json,
{
    Value::default()
}

/// Encodes `lsp_types::ConfigurationParams` with `serde_json::to_value`.
#[verifier::external_body]
pub(crate) fn encode_configuration_params(params: ConfigurationParams) -> (json: Value)
    ensures
        json == configuration_params_json(question_view(params)),
{
    serde_json::to_value(params).unwrap()
}

} // verus!
