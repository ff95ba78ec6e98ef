//! The harness control channel's own decisions: the token gate, which
//! request lines are read, and the failure responses it sends itself.

use vstd::prelude::*;
use crate::text::{chars_of, extend_chars, string_of, trim_text, trimmed};
use crate::json::{json_u64_at, json_u64_field, json_parse_outcome, parse_json, key_set};

verus! {

/// A failure answered by the channel itself.
#[derive(Debug, Clone, PartialEq, Eq)]
pub struct HarnessFailure {
    pub id: u64,
    pub code: String,
    pub message: String,
}

pub fn failure(id: u64, code: &str, message: &str) -> (r: HarnessFailure)
    ensures
        r.id == id,
        r.code@ == code@,
        r.message@ == message@,
{
    HarnessFailure { id, code: String::from_str(code), message: String::from_str(message) }
}

/// A connection is let in when its first line, trimmed, is the token.
pub fn token_accepted(first_line: Option<&str>, token: &str) -> (r: bool)
    ensures
        r == (first_line matches Some(l) && trimmed(l@) == token@),
{
    match first_line {
        Some(line) => {
            let t = trim_text(line);
            let a = chars_of(t.as_str());
            let b = chars_of(token);
            crate::text::chars_equal(&a, &b)
        },
        None => false,
    }
}

/// The answer to a connection that failed the token gate.
pub fn bad_token_rejection() -> (r: HarnessFailure)
    ensures
        r.id == 0,
        r.code@ == "bad_token"@,
        r.message@ == "first line must be the session token from session.json"@,
{
    failure(0, "bad_token", "first line must be the session token from session.json")
}

/// The request text of a line: the trimmed line, or `None` for a blank one,
/// which is skipped.
pub fn request_text(line: &str) -> (r: Option<String>)
    ensures
        trimmed(line@).len() == 0 ==> r is None,
        trimmed(line@).len() > 0 ==> (r matches Some(t) && t@ == trimmed(line@)),
{
    let t = trim_text(line);
    if t.unicode_len() == 0 {
        None
    } else {
        Some(t)
    }
}

/// Best-effort id of a malformed request line, 0 when none can be read, so
/// that the client can match the error to its request.
pub fn extract_request_id(line: &str) -> (id: u64)
    ensures
        id == match json_u64_field(line@, "id"@) {
            Some(v) => v,
            None => 0,
        },
{
    match json_u64_at(line, "id") {
        Some(v) => v,
        None => 0,
    }
}

/// The answer to a request line that could not be parsed: "bad_request",
/// with the parser's message, under the line's id when one can be read.
pub fn malformed_request_response(line: &str, parse_error: &str) -> (r: HarnessFailure)
    ensures
        r.id == match json_u64_field(line@, "id"@) {
            Some(v) => v,
            None => 0,
        },
        r.code@ == "bad_request"@,
        r.message@ == "invalid request: "@ + parse_error@,
{
    let id = extract_request_id(line);
    let mut msg = chars_of("invalid request: ");
    let e = chars_of(parse_error);
    extend_chars(&mut msg, &e);
    let message = string_of(&msg);
    HarnessFailure { id, code: String::from_str("bad_request"), message }
}

/// What a request line's envelope gives before its command is decoded:
/// its id, and whether its object lacks "params", which then reads as an
/// empty object.
#[derive(Debug, Clone, Copy, PartialEq, Eq, Structural)]
pub struct RequestEnvelope {
    pub id: u64,
    pub default_params: bool,
}

pub open spec fn lacks_params(line: Seq<char>) -> bool {
    json_parse_outcome(line) matches Ok(Some(keys)) && !keys.contains("params"@)
}

/// Reads the envelope of a request line: an unsigned integer "id" is
/// required, else the request fails with "missing or non-integer `id`".
pub fn request_envelope(line: &str) -> (r: Result<RequestEnvelope, String>)
    ensures
        match json_u64_field(line@, "id"@) {
            None => r matches Err(e) && e@ == "missing or non-integer `id`"@,
            Some(id) => r matches Ok(env) && env.id == id && env.default_params == lacks_params(line@),
        },
{
    let id = match json_u64_at(line, "id") {
        Some(v) => v,
        None => return Err(String::from_str("missing or non-integer `id`")),
    };
    let default_params = match parse_json(line) {
        Ok(Some(keys)) => {
            let p = String::from_str("params");
            let mut found = false;
            let mut i: usize = 0;
            while i < keys.len()
                invariant
                    p@ == "params"@,
                    i <= keys@.len(),
                    found == exists|j: int| 0 <= j < i && #[trigger] keys@[j]@ == "params"@,
                decreases keys@.len() - i,
            {
                if keys[i] == p {
                    found = true;
                }
                i = i + 1;
            }
            proof {
                let ks = keys@.map_values(|k: String| k@);
                if found {
                    let j = choose|j: int| 0 <= j < keys@.len() && #[trigger] keys@[j]@ == "params"@;
                    assert(ks[j] == "params"@);
                    assert(key_set(keys@).contains("params"@));
                } else {
                    assert(!ks.contains("params"@));
                }
            }
            !found
        },
        _ => false,
    };
    Ok(RequestEnvelope { id, default_params })
}

} // verus!
