//! Tolerant decoding of one transcript line.
//!
//! A line is parsed as a JSON document through `serde_json`; the
//! decoded value is opaque here, so the wrappers below only move data
//! out of it. The shape rules — which fields are required, and the
//! string-first-then-blocks strategy for message content — are the
//! verified logic of this module.

use vstd::prelude::*;

use crate::session::{ContentBlock, MessageContent, SessionFileEntry, StringOrArray};

verus! {

#[verifier::external_type_specification]
#[verifier::external_body]
pub struct ExJsonValue(serde_json::Value);

/// Relies on `serde_json::from_str::<Value>`: parses one JSON
/// document, `Err` on malformed input.
#[verifier::external_body]
fn parse_json(line: &str) -> (r: Option<serde_json::Value>) {
    serde_json::from_str(line).ok()
}

/// Relies on `serde_json::Value::get`: the value of the named field
/// when `v` is an object that has it, `None` otherwise.
#[verifier::external_body]
fn json_field(v: &serde_json::Value, name: &str) -> (r: Option<serde_json::Value>) {
    v.get(name).cloned()
}

/// Relies on `serde_json::Value::as_str`: the string content when `v`
/// is a JSON string, `None` otherwise.
#[verifier::external_body]
fn json_string(v: &serde_json::Value) -> (r: Option<String>) {
    v.as_str().map(str::to_owned)
}

/// Relies on `serde_json::Value::as_array`: the elements when `v` is
/// a JSON array, `None` otherwise.
#[verifier::external_body]
fn json_array(v: &serde_json::Value) -> (r: Option<Vec<serde_json::Value>>) {
    v.as_array().cloned()
}

/// The named field of `v` when it is present and string-shaped.
fn field_string(v: &serde_json::Value, name: &str) -> Option<String> {
    match json_field(v, name) {
        Some(f) => json_string(&f),
        None => None,
    }
}

/// Decode one content block; a block without a string `"type"` or
/// without string `"text"` keeps an empty tag or text rather than
/// failing, so unknown block kinds never abort parsing.
fn decode_block(v: &serde_json::Value) -> ContentBlock {
    let block_type = match field_string(v, "type") {
        Some(t) => t,
        None => String::new(),
    };
    let text = match field_string(v, "text") {
        Some(t) => t,
        None => String::new(),
    };
    ContentBlock { block_type, text }
}

/// Decode the polymorphic content field: the string shape is tried
/// first, then the array-of-blocks shape; any other shape is a decode
/// failure for this field only.
fn decode_content(v: &serde_json::Value) -> Option<StringOrArray> {
    if let Some(s) = json_string(v) {
        return Some(StringOrArray::Str(s));
    }
    match json_array(v) {
        Some(elems) => {
            let mut blocks: Vec<ContentBlock> = Vec::new();
            let mut i: usize = 0;
            while i < elems.len()
                decreases elems.len() - i,
            {
                blocks.push(decode_block(&elems[i]));
                i = i + 1;
            }
            Some(StringOrArray::Array(blocks))
        },
        None => None,
    }
}

/// Decode the message payload; it needs a string `"role"` and a
/// decodable `"content"`.
fn decode_message(v: &serde_json::Value) -> Option<MessageContent> {
    let role = field_string(v, "role")?;
    let content_value = json_field(v, "content")?;
    let content = decode_content(&content_value)?;
    Some(MessageContent { role, content })
}

/// Decode one line of a transcript file into a `SessionFileEntry`.
///
/// A line without a string `"type"` field fails to decode and is
/// skipped by every caller; all other fields are optional, and a
/// malformed optional field is treated as absent rather than fatal.
pub fn parse_entry_line(line: &str) -> Option<SessionFileEntry> {
    let v = parse_json(line)?;
    let entry_type = field_string(&v, "type")?;
    let message = match json_field(&v, "message") {
        Some(m) => decode_message(&m),
        None => None,
    };
    Some(
        SessionFileEntry {
            entry_type,
            session_id: field_string(&v, "sessionId"),
            cwd: field_string(&v, "cwd"),
            git_branch: field_string(&v, "gitBranch"),
            timestamp: field_string(&v, "timestamp"),
            version: field_string(&v, "version"),
            message,
            uuid: field_string(&v, "uuid"),
        },
    )
}

} // verus!
