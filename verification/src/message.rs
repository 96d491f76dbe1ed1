//! Signaling frames: parsing inbound text and building the greeting.
//!
//! A signaling message is a JSON object with string members `from` and `to`
//! and optional payload members (`sdp`, `candidate`, or anything else), all
//! carried verbatim and never interpreted. The relay reads only `to`.

use vstd::prelude::*;
use vstd::string::StringExecFns;

verus! {

/// What a well-formed signaling frame parses to: its `from` and `to`
/// identifiers, in that order. The payload members are opaque to the relay
/// and never read, so they do not appear in the parse result.
///
/// The name stands for the outcome of JSON parsing under the frame schema: a
/// frame is well-formed exactly when its text is a JSON object whose `from`
/// and `to` members are strings; the outcome is a function of the text alone.
pub uninterp spec fn parse_of(text: Seq<char>) -> Option<(Seq<char>, Seq<char>)>;

/// Relies on `serde_json::from_str::<serde_json::Value>` to parse the frame,
/// and on `serde_json::Value::get` and `serde_json::Value::as_str` to read
/// the required `from` and `to` string members. The outcome depends on the
/// text alone.
#[verifier::external_body]
pub(crate) fn parse_fields(text: &String) -> (r: Option<(String, String)>)
    ensures
        r is Some <==> parse_of(text@) is Some,
        r matches Some(p) ==> parse_of(text@) == Some((p.0@, p.1@)),
{
    let v: serde_json::Value = serde_json::from_str(text).ok()?;
    let from = v.get("from")?.as_str()?;
    let to = v.get("to")?.as_str()?;
    Some((from.to_string(), to.to_string()))
}

/// The greeting frame that announces a fresh connection's identifier.
pub open spec fn welcome_of(id: Seq<char>) -> Seq<char> {
    "{\"type\":\"welcome\",\"id\":\""@ + id + "\"}"@
}

/// Build the greeting frame for `id`.
pub fn welcome_frame(id: &String) -> (r: String)
    ensures
        r@ == welcome_of(id@),
{
    let mut s: String = "{\"type\":\"welcome\",\"id\":\"".to_owned();
    s.append(id.as_str());
    s.append("\"}");
    s
}

} // verus!
