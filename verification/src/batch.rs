//! Batched API requests: the agent-facing input shape, conversion to
//! executable requests, response classification, and the overall verdict.

use vstd::prelude::*;
use crate::json::{JsonVal, JsonModel, json_get};

verus! {

/// The HTTP methods a batch entry may use.
pub enum HttpMethod {
    Get,
    Post,
    Put,
    Patch,
    Delete,
}

/// One batch entry as supplied: the method still as text.
pub struct BatchRequestInput {
    /// Matches responses to requests.
    pub id: String,
    pub method: String,
    pub path: String,
    pub body: Option<JsonVal>,
}

/// One executable batch entry.
pub struct BatchRequest {
    pub id: String,
    pub method: HttpMethod,
    pub path: String,
    pub body: Option<JsonVal>,
}

/// One response from the batch transport.
pub struct BatchResponse {
    pub id: String,
    pub status: u16,
    pub body: JsonVal,
}

/// A successful batch result.
pub struct BatchResultOutput {
    pub id: String,
    pub status: u16,
    pub body: JsonVal,
}

/// A failed batch entry.
pub struct BatchErrorOutput {
    pub id: String,
    pub status: u16,
    pub message: String,
}

/// Results and errors together, under one combined outcome.
pub struct BatchOutput {
    /// `success` when nothing failed, `error` when nothing succeeded,
    /// `partial` otherwise.
    pub status: String,
    pub results: Vec<BatchResultOutput>,
    pub errors: Vec<BatchErrorOutput>,
}

pub open spec fn ascii_upper_char(c: char) -> char {
    if 97 <= c as u32 <= 122 {
        crate::json::char_of(c as u32 - 32)
    } else {
        c
    }
}

pub open spec fn ascii_upper(s: Seq<char>) -> Seq<char> {
    Seq::new(s.len(), |i: int| ascii_upper_char(s[i]))
}

/// The method a text names, compared without regard to ASCII case.
pub open spec fn method_of(s: Seq<char>) -> Option<HttpMethod> {
    if ascii_upper(s) == "GET"@ {
        Some(HttpMethod::Get)
    } else if ascii_upper(s) == "POST"@ {
        Some(HttpMethod::Post)
    } else if ascii_upper(s) == "PUT"@ {
        Some(HttpMethod::Put)
    } else if ascii_upper(s) == "PATCH"@ {
        Some(HttpMethod::Patch)
    } else if ascii_upper(s) == "DELETE"@ {
        Some(HttpMethod::Delete)
    } else {
        None
    }
}

/// The text with ASCII letters upper-cased.
pub fn to_ascii_upper(s: &str) -> (r: String)
    ensures
        r@ == ascii_upper(s@),
{
    let v = crate::json::chars_vec(s);
    let mut out: Vec<char> = Vec::new();
    let mut i: usize = 0;
    while i < v.len()
        invariant
            i <= v@.len(),
            v@ == s@,
            out@.len() == i,
            forall|q: int| 0 <= q < i ==> out@[q] == ascii_upper_char(s@[q]),
        decreases v@.len() - i,
    {
        let c = v[i];
        let n = c as u32;
        if 97 <= n && n <= 122 {
            match crate::json::char_from_u32(n - 32) {
                Some(u) => {
                    proof {
                        crate::json::lemma_char_of(u);
                    }
                    out.push(u);
                },
                None => {
                    // every ASCII letter shifted by case stays a valid scalar
                    proof {
                        assert(false);
                    }
                },
            }
        } else {
            out.push(c);
        }
        i = i + 1;
    }
    proof {
        assert(out@ =~= ascii_upper(s@));
    }
    crate::json::string_of_chars(&out)
}

impl BatchRequestInput {
    /// Convert to an executable request; an unrecognized method is refused
    /// with its upper-cased spelling named.
    pub fn to_batch_request(&self) -> (r: Result<BatchRequest, String>)
        ensures
            match r {
                Ok(q) => {
                    &&& method_of(self.method@) == Some(q.method)
                    &&& q.id@ == self.id@
                    &&& q.path@ == self.path@
                    &&& (q.body matches Some(b) && self.body matches Some(sb) && b@ == sb@) || (
                    q.body is None && self.body is None)
                },
                Err(msg) => method_of(self.method@) is None && msg@ == "Unsupported method: "@
                    + ascii_upper(self.method@),
            },
    {
        let up = to_ascii_upper(self.method.as_str());
        let method: Option<HttpMethod> = if crate::json::str_eq(up.as_str(), "GET") {
            Some(HttpMethod::Get)
        } else if crate::json::str_eq(up.as_str(), "POST") {
            Some(HttpMethod::Post)
        } else if crate::json::str_eq(up.as_str(), "PUT") {
            Some(HttpMethod::Put)
        } else if crate::json::str_eq(up.as_str(), "PATCH") {
            Some(HttpMethod::Patch)
        } else if crate::json::str_eq(up.as_str(), "DELETE") {
            Some(HttpMethod::Delete)
        } else {
            None
        };
        match method {
            Some(m) => Ok(
                BatchRequest {
                    id: self.id.clone(),
                    method: m,
                    path: self.path.clone(),
                    body: match &self.body {
                        Some(b) => Some(crate::json::clone_json(b)),
                        None => None,
                    },
                },
            ),
            None => {
                let mut msg = String::from_str("Unsupported method: ");
                msg.append(up.as_str());
                Err(msg)
            },
        }
    }
}

/// Whether a status code counts as success.
pub open spec fn is_success_status(status: int) -> bool {
    200 <= status < 300
}

/// The error message a failed response carries: its body's
/// `error.message`, else a fixed fallback.
pub open spec fn error_message_of(body: JsonModel) -> Seq<char> {
    match json_get(body, "error"@) {
        Some(e) => match json_get(e, "message"@) {
            Some(JsonModel::Text(m)) => m,
            _ => "Request failed"@,
        },
        _ => "Request failed"@,
    }
}

/// Classify one response: a success keeps its body, a failure carries the
/// message its body names.
pub fn classify_response(resp: BatchResponse) -> (r: Result<BatchResultOutput, BatchErrorOutput>)
    ensures
        match r {
            Ok(out) => is_success_status(resp.status as int) && out.id@ == resp.id@
                && out.status == resp.status && out.body@ == resp.body@,
            Err(e) => !is_success_status(resp.status as int) && e.id@ == resp.id@ && e.status
                == resp.status && e.message@ == error_message_of(resp.body@),
        },
{
    if 200 <= resp.status && resp.status < 300 {
        Ok(BatchResultOutput { id: resp.id, status: resp.status, body: resp.body })
    } else {
        let message: String = match crate::json::get_member(&resp.body, "error") {
            Some(e) => match crate::json::get_member(e, "message") {
                Some(mv) => match crate::json::as_text(mv) {
                    Some(m) => m.clone(),
                    None => String::from_str("Request failed"),
                },
                None => String::from_str("Request failed"),
            },
            None => String::from_str("Request failed"),
        };
        Err(BatchErrorOutput { id: resp.id, status: resp.status, message })
    }
}

/// The combined outcome: `success` when nothing failed, `error` when
/// nothing succeeded, `partial` otherwise.
pub fn overall_status(results_empty: bool, errors_empty: bool) -> (r: String)
    ensures
        errors_empty ==> r@ == "success"@,
        !errors_empty && results_empty ==> r@ == "error"@,
        !errors_empty && !results_empty ==> r@ == "partial"@,
{
    if errors_empty {
        String::from_str("success")
    } else if results_empty {
        String::from_str("error")
    } else {
        String::from_str("partial")
    }
}

} // verus!
