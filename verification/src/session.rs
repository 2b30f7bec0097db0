//! Signaling session response.
//!
//! The signaling exchange posts the local offer over HTTP and receives a
//! JSON document holding the remote answer and a single ICE candidate.
//! The runtime does the HTTP; here the document is reduced to the two
//! strings the stack consumes.

use vstd::prelude::*;

use std::collections::HashMap;
use tinyjson::JsonValue;

verus! {

/// The longest session document the parser is asked to read.  tinyjson's
/// parser recurses once per nesting level and nesting depth cannot exceed
/// the document's length, so this bound keeps the worst-case recursion
/// comfortably inside a small thread stack.
pub const MAX_SESSION_BODY_LEN: usize = 8192;

/// The string at `doc[k1][k2]`, if `doc` parses as a JSON object with an
/// object at `k1` holding a string at `k2`.
pub uninterp spec fn json_nested_string(doc: Seq<char>, k1: Seq<char>, k2: Seq<char>) -> Option<
    Seq<char>>;

/// Relies on tinyjson: `str::parse::<JsonValue>` is a function of the
/// text alone, and the typed `get` accessors walk two object levels down
/// to a string field.  The parser is recursive descent without a depth
/// limit, so the input must be bounded (see `MAX_SESSION_BODY_LEN`) for
/// the call to return on every admitted input.
#[verifier::external_body]
fn json_extract(input: &str, k1: &str, k2: &str) -> (r: Option<String>)
    requires
        input@.len() <= MAX_SESSION_BODY_LEN,
    ensures
        match r {
            Option::Some(v) => json_nested_string(input@, k1@, k2@) == Some(v@),
            Option::None => json_nested_string(input@, k1@, k2@) is None,
        },
{
    let doc: JsonValue = input.parse().ok()?;
    let top: &HashMap<String, JsonValue> = doc.get()?;
    let o1: &HashMap<String, JsonValue> = top.get(k1)?.get()?;
    let s: &String = o1.get(k2)?.get()?;
    Some(s.clone())
}

/// The remote session answer.
#[derive(Clone)]
pub struct SessionAnswer {
    pub sdp: String,
}

/// The remote ICE candidate, kept as an opaque string.
pub struct SessionCandidate {
    pub candidate: String,
}

/// What signaling returns: the answer and one candidate.
pub struct JsSessionResponse {
    pub answer: SessionAnswer,
    pub candidate: SessionCandidate,
}

/// Reads the session response out of the signaling server's JSON body:
/// the strings at `answer.sdp` and `candidate.candidate`.  Returns None
/// when either is missing or the document does not parse.  The body must
/// be bounded, so that the parser's recursion cannot outgrow the stack;
/// the caller rejects longer bodies as malformed.
pub fn get_session_response(input: &str) -> (r: Option<JsSessionResponse>)
    requires
        input@.len() <= MAX_SESSION_BODY_LEN,
    ensures
        match (json_nested_string(input@, "answer"@, "sdp"@), json_nested_string(input@,
            "candidate"@, "candidate"@)) {
            (Option::Some(sdp), Option::Some(cand)) => r matches Some(resp)
                && resp.answer.sdp@ == sdp && resp.candidate.candidate@ == cand,
            _ => r is None,
        },
{
    let sdp = json_extract(input, "answer", "sdp");
    let cand = json_extract(input, "candidate", "candidate");
    match (sdp, cand) {
        (Option::Some(sdp), Option::Some(candidate)) => Some(JsSessionResponse {
            answer: SessionAnswer { sdp },
            candidate: SessionCandidate { candidate },
        }),
        _ => None,
    }
}

} // verus!
