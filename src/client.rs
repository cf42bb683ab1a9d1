use vstd::prelude::*;

use crate::error::RPCError;
use crate::json::{json_text, parsed_json, Json};
use crate::types::{decode_response, decodes_response, is_request_wire, is_response_object, RPCRequest, RPCResponse};

verus! {

/// Why a batch call got no responses.
#[derive(Debug, Clone, Copy, PartialEq, Eq)]
pub enum CallError {
    /// The server answered with this status, which is not success-class.
    HttpStatus(u16),
    /// The body of the answer is not an array of responses.
    InvalidBody,
}

/// The message of the error for a status that is not success-class.
pub open spec fn status_failure() -> Seq<char> {
    "Failed to request uri"@
}

/// The message of the error for a body that is no response.
pub open spec fn body_failure() -> Seq<char> {
    "Invalid response body"@
}

/// Every item reads as a response.
pub open spec fn all_responses(items: Seq<Json>) -> bool {
    forall|i: int| 0 <= i < items.len() ==> is_response_object(#[trigger] items[i])
}

/// An HTTP status in the success class, 200 to 299.
pub open spec fn is_success_status(status: u16) -> bool {
    200 <= status <= 299
}

/// Whether `status` is in the success class.
pub fn is_success(status: u16) -> (r: bool)
    ensures
        r == is_success_status(status),
{
    200 <= status && status <= 299
}

/// The value of an `Authorization` header for `token`.
pub fn bearer(token: &str) -> (r: String)
    ensures
        r@ == "Bearer "@ + token@,
{
    let mut r = "Bearer ".to_owned();
    r.append(token);
    r
}

/// The headers of a call: the content type, the client name, and the bearer
/// token if there is one.
pub fn call_headers(auth: Option<&str>) -> (r: Vec<(String, String)>)
    ensures
        r@.len() == (if auth.is_some() { 3int } else { 2int }),
        r@[0].0@ == "content-type"@ && r@[0].1@ == "application/json"@,
        r@[1].0@ == "User-Agent"@ && r@[1].1@ == "hyper-client"@,
        auth matches Some(t) ==> r@[2].0@ == "Authorization"@ && r@[2].1@ == "Bearer "@ + t@,
{
    let mut r: Vec<(String, String)> = Vec::new();
    r.push(("content-type".to_owned(), "application/json".to_owned()));
    r.push(("User-Agent".to_owned(), "hyper-client".to_owned()));
    if let Some(t) = auth {
        r.push(("Authorization".to_owned(), bearer(t)));
    }
    r
}

/// The headers of a batch call: the content type, and the bearer token if
/// there is one.
pub fn batch_headers(auth: Option<&str>) -> (r: Vec<(String, String)>)
    ensures
        r@.len() == (if auth.is_some() { 2int } else { 1int }),
        r@[0].0@ == "content-type"@ && r@[0].1@ == "application/json"@,
        auth matches Some(t) ==> r@[1].0@ == "Authorization"@ && r@[1].1@ == "Bearer "@ + t@,
{
    let mut r: Vec<(String, String)> = Vec::new();
    r.push(("content-type".to_owned(), "application/json".to_owned()));
    if let Some(t) = auth {
        r.push(("Authorization".to_owned(), bearer(t)));
    }
    r
}

/// The body of a call of `method` with `params`: a request with id `1`.
pub fn call_body(method: &str, params: Json) -> (r: String)
    ensures
        exists|q: RPCRequest<Json>, w: Json|
            {
                &&& q.jsonrpc@ == "2.0"@
                &&& q.method@ == method@
                &&& q.params == params
                &&& q.id matches Json::Number(t) && t@ == seq!['1']
                &&& is_request_wire(w, q)
                &&& r@ == json_text(w)
            },
{
    let q = RPCRequest::new(method, params);
    let w = q.into_value();
    assert(crate::json::int_text(1) =~= seq!['1']);
    w.to_text()
}

/// The body of a batch call: the requests in order.
pub fn batch_body(requests: Vec<RPCRequest<Json>>) -> (r: String)
    ensures
        exists|a: Vec<Json>|
            {
                &&& a@.len() == requests@.len()
                &&& forall|i: int| 0 <= i < a@.len() ==> is_request_wire(#[trigger] a@[i], requests@[i])
                &&& r@ == json_text(Json::Array(a))
            },
{
    let ghost qs = requests@;
    let mut rest = requests;
    let mut a: Vec<Json> = Vec::new();
    while rest.len() > 0
        invariant
            a@.len() + rest@.len() == qs.len(),
            rest@ == qs.subrange(a@.len() as int, qs.len() as int),
            forall|i: int| 0 <= i < a@.len() ==> is_request_wire(#[trigger] a@[i], qs[i]),
        decreases rest@.len(),
    {
        let ghost k = a@.len() as int;
        let q = rest.remove(0);
        assert(q == qs[k]);
        a.push(q.into_value());
    }
    let ghost ga = a;
    let r = Json::Array(a).to_text();
    assert(r@ == json_text(Json::Array(ga)));
    r
}

/// What a call returns, from the status and body of the server's answer: a
/// status that is not success-class fails whatever the body holds; otherwise
/// the body's response gives its error, or its result.
pub fn call_outcome(status: u16, body: &[u8]) -> (r: Result<Option<Json>, RPCError>)
    ensures
        !is_success_status(status) ==> (r matches Err(e) && e.is_internal(status_failure())),
        is_success_status(status) ==> match parsed_json(body@) {
            Some(j) => if is_response_object(j) {
                exists|resp: RPCResponse<Json>|
                    decodes_response(j, resp) && match resp.error {
                        Some(e) => r == Err::<Option<Json>, RPCError>(e),
                        None => r == Ok::<Option<Json>, RPCError>(resp.result),
                    }
            } else {
                r matches Err(e) && e.is_internal(body_failure())
            },
            None => r matches Err(e) && e.is_internal(body_failure()),
        },
{
    if !is_success(status) {
        return Err(RPCError::internal_error("Failed to request uri".to_owned()));
    }
    match Json::parse(body) {
        None => Err(RPCError::internal_error("Invalid response body".to_owned())),
        Some(j) => {
            let ghost gj = j;
            match decode_response(j) {
                None => Err(RPCError::internal_error("Invalid response body".to_owned())),
                Some(resp) => {
                    let ghost gr = resp;
                    assert(decodes_response(gj, gr));
                    match resp.error {
                        Some(e) => Err(e),
                        None => Ok(resp.result),
                    }
                },
            }
        },
    }
}

/// What a batch call returns, from the status and body of the server's
/// answer: the responses of an array in which every item reads as one.
pub fn batch_outcome(status: u16, body: &[u8]) -> (r: Result<Vec<RPCResponse<Json>>, CallError>)
    ensures
        !is_success_status(status) ==> r == Err::<Vec<RPCResponse<Json>>, CallError>(CallError::HttpStatus(status)),
        is_success_status(status) ==> match parsed_json(body@) {
            Some(Json::Array(items)) => if all_responses(items@) {
                r matches Ok(rs) && rs@.len() == items@.len()
                    && forall|i: int| 0 <= i < rs@.len() ==> decodes_response(items@[i], #[trigger] rs@[i])
            } else {
                r == Err::<Vec<RPCResponse<Json>>, CallError>(CallError::InvalidBody)
            },
            _ => r == Err::<Vec<RPCResponse<Json>>, CallError>(CallError::InvalidBody),
        },
{
    if !is_success(status) {
        return Err(CallError::HttpStatus(status));
    }
    match Json::parse(body) {
        Some(Json::Array(items)) => {
            let ghost its = items@;
            let ghost g = items;
            let mut rest = items;
            let mut rs: Vec<RPCResponse<Json>> = Vec::new();
            while rest.len() > 0
                invariant
                    is_success_status(status),
                    parsed_json(body@) == Some(Json::Array(g)),
                    its == g@,
                    rs@.len() + rest@.len() == its.len(),
                    rest@ == its.subrange(rs@.len() as int, its.len() as int),
                    forall|i: int| 0 <= i < rs@.len() ==> is_response_object(#[trigger] its[i]),
                    forall|i: int| 0 <= i < rs@.len() ==> decodes_response(its[i], #[trigger] rs@[i]),
                decreases rest@.len(),
            {
                let ghost k = rs@.len() as int;
                let j = rest.remove(0);
                assert(j == its[k]);
                match decode_response(j) {
                    Some(resp) => {
                        let ghost gr = resp;
                        assert(is_response_object(its[k]) && decodes_response(its[k], gr));
                        rs.push(resp);
                        assert(rs@[k] == gr);
                    },
                    None => {
                        assert(!is_response_object(its[k]));
                        assert(!all_responses(g@));
                        return Err(CallError::InvalidBody);
                    },
                }
            }
            Ok(rs)
        },
        _ => Err(CallError::InvalidBody),
    }
}

} // verus!
