use vstd::prelude::*;

use crate::error::{RPCError, PARSE_ERROR_CODE};
use crate::json::{field_of, json_text, parsed_json, Json};
use crate::types::{decode_request, is_request_object, is_response_wire, RPCRequest, RPCResponse};

verus! {

/// Why a request body got no JSON-RPC reply at all.
#[derive(Debug, Clone, Copy, PartialEq, Eq)]
pub enum ServeError {
    /// The body is not one JSON text.
    InvalidJson,
    /// The body is JSON, but neither an object nor an array.
    UnsupportedPayload,
}

/// `resp` answers the request with `id`: it echoes the id, carries the
/// protocol version and sets at most one of `result` and `error`.
pub open spec fn is_answer(resp: RPCResponse<Json>, id: Json) -> bool {
    &&& resp.jsonrpc@ == "2.0"@
    &&& resp.id == id
    &&& resp.is_exclusive()
}

/// `w` is the wire form of an answer to the request with `id`.
pub open spec fn is_answer_wire(w: Json, id: Json) -> bool {
    exists|resp: RPCResponse<Json>| is_answer(resp, id) && is_response_wire(w, resp)
}

/// `w` is the wire form of a `parse_error` response with a null id.
pub open spec fn is_parse_error_wire(w: Json) -> bool {
    exists|resp: RPCResponse<Json>|
        {
            &&& resp.jsonrpc@ == "2.0"@
            &&& resp.id == Json::Null
            &&& resp.result is None
            &&& resp.error matches Some(e) && e.is_reserved(PARSE_ERROR_CODE)
            &&& is_response_wire(w, resp)
        }
}

/// The id of a request object.
pub open spec fn id_of(j: Json) -> Json {
    field_of(j->Object_0@, "id"@).unwrap()
}

/// `w` is the reply to the single payload `j`: an answer to it where it reads
/// as a request, a `parse_error` response otherwise.
pub open spec fn is_single_reply(j: Json, w: Json) -> bool {
    if is_request_object(j) {
        is_answer_wire(w, id_of(j))
    } else {
        is_parse_error_wire(w)
    }
}

/// `w` is the reply to the batch `items`: where every item reads as a
/// request, an array that answers each in order; a `parse_error` response
/// otherwise.
pub open spec fn is_batch_reply(items: Seq<Json>, w: Json) -> bool {
    if forall|i: int| 0 <= i < items.len() ==> is_request_object(#[trigger] items[i]) {
        &&& w matches Json::Array(a)
        &&& a@.len() == items.len()
        &&& forall|i: int| 0 <= i < items.len() ==> is_answer_wire(#[trigger] a@[i], id_of(items[i]))
    } else {
        is_parse_error_wire(w)
    }
}

/// The response to the request with `id` for what its handler returned.
pub fn respond(id: Json, outcome: Result<Option<Json>, RPCError>) -> (r: RPCResponse<Json>)
    ensures
        r.jsonrpc@ == "2.0"@,
        r.id == id,
        match outcome {
            Ok(v) => r.result == v && r.error is None,
            Err(e) => r.result is None && r.error == Some(e),
        },
{
    match outcome {
        Ok(v) => RPCResponse::result(id, v),
        Err(e) => RPCResponse::error(id, e),
    }
}

/// The methods an application answers.
pub trait Handle {
    /// Answers one call of `method`; an unknown method gives
    /// `RPCError::unknown_method`, params of the wrong shape
    /// `RPCError::invalid_params`.
    fn handle(&self, method: &str, params: Option<Json>) -> Result<Option<Json>, RPCError>;

    /// Answers each request in order, one response for each, with its id.
    fn batch_handle(&self, requests: Vec<RPCRequest<Option<Json>>>) -> (r: Vec<RPCResponse<Json>>)
        ensures
            r@.len() == requests@.len(),
            forall|i: int| 0 <= i < r@.len() ==> is_answer(#[trigger] r@[i], requests@[i].id),
    {
        let ghost reqs = requests@;
        let mut rest = requests;
        let mut response: Vec<RPCResponse<Json>> = Vec::new();
        while rest.len() > 0
            invariant
                response@.len() + rest@.len() == reqs.len(),
                rest@ == reqs.subrange(response@.len() as int, reqs.len() as int),
                forall|i: int| 0 <= i < response@.len() ==> is_answer(#[trigger] response@[i], reqs[i].id),
            decreases rest@.len(),
        {
            let req = rest.remove(0);
            let outcome = self.handle(req.method.as_str(), req.params);
            response.push(respond(req.id, outcome));
        }
        response
    }
}

/// The reply to a request object echoes its id exactly, whatever the handler
/// returned.
pub proof fn lemma_id_round_trip(j: Json, w: Json)
    requires
        is_request_object(j),
        is_single_reply(j, w),
    ensures
        w is Object,
        field_of(w->Object_0@, "id"@) == field_of(j->Object_0@, "id"@),
{
    let resp = choose|resp: RPCResponse<Json>| is_answer(resp, id_of(j)) && is_response_wire(w, resp);
    let f = w->Object_0@;
    assert(f.last() == f[2]);
}

/// Answers one call.
pub fn answer<H: Handle>(handler: &H, req: RPCRequest<Option<Json>>) -> (r: RPCResponse<Json>)
    ensures
        is_answer(r, req.id),
{
    let outcome = handler.handle(req.method.as_str(), req.params);
    respond(req.id, outcome)
}

/// The `parse_error` response to a payload that does not read as a request.
pub fn parse_error_reply() -> (w: Json)
    ensures
        is_parse_error_wire(w),
{
    let resp: RPCResponse<Json> = RPCResponse::error(Json::Null, RPCError::parse_error());
    let ghost g = resp;
    let w = resp.into_value();
    assert(is_response_wire(w, g));
    w
}

/// Replies to a single payload.
pub fn handle_single<H: Handle>(handler: &H, j: Json) -> (w: Json)
    ensures
        is_single_reply(j, w),
{
    match decode_request(j) {
        Some(req) => {
            let resp = answer(handler, req);
            let ghost gr = resp;
            let w = resp.into_value();
            assert(is_response_wire(w, gr));
            w
        },
        None => parse_error_reply(),
    }
}

/// Replies to a batch: every item is answered in order, unless one of them
/// does not read as a request, which rejects the whole batch.
pub fn handle_batch<H: Handle>(handler: &H, items: Vec<Json>) -> (w: Json)
    ensures
        is_batch_reply(items@, w),
{
    let ghost its = items@;
    let mut rest = items;
    let mut reqs: Vec<RPCRequest<Option<Json>>> = Vec::new();
    while rest.len() > 0
        invariant
            its == items@,
            reqs@.len() + rest@.len() == its.len(),
            rest@ == its.subrange(reqs@.len() as int, its.len() as int),
            forall|i: int|
                0 <= i < reqs@.len() ==> is_request_object(#[trigger] its[i]) && reqs@[i].id == id_of(
                    its[i],
                ),
        decreases rest@.len(),
    {
        let ghost k = reqs@.len() as int;
        let j = rest.remove(0);
        assert(j == its[k]);
        match decode_request(j) {
            Some(q) => {
                reqs.push(q);
            },
            None => {
                assert(!is_request_object(its[k]));
                assert(!(forall|i: int| 0 <= i < its.len() ==> is_request_object(#[trigger] its[i])));
                let w = parse_error_reply();
                return w;
            },
        }
    }
    let resps = handler.batch_handle(reqs);
    let ghost rs = resps@;
    let mut left = resps;
    let mut out: Vec<Json> = Vec::new();
    while left.len() > 0
        invariant
            rs.len() == its.len(),
            out@.len() + left@.len() == rs.len(),
            left@ == rs.subrange(out@.len() as int, rs.len() as int),
            forall|i: int| 0 <= i < rs.len() ==> is_answer(#[trigger] rs[i], id_of(its[i])),
            forall|i: int| 0 <= i < out@.len() ==> is_answer_wire(#[trigger] out@[i], id_of(its[i])),
        decreases left@.len(),
    {
        let ghost k = out@.len() as int;
        let resp = left.remove(0);
        assert(resp == rs[k]);
        let w = resp.into_value();
        assert(is_answer(rs[k], id_of(its[k])) && is_response_wire(w, rs[k]));
        out.push(w);
    }
    Json::Array(out)
}

/// Replies to a request body: an object is one call, an array a batch; a body
/// that is not JSON, or JSON of another shape, gets no JSON-RPC reply.
pub fn dispatch<H: Handle>(handler: &H, body: &[u8]) -> (r: Result<String, ServeError>)
    ensures
        match parsed_json(body@) {
            None => r == Err::<String, ServeError>(ServeError::InvalidJson),
            Some(j) => match j {
                Json::Object(_) => r matches Ok(t) && exists|w: Json|
                    t@ == json_text(w) && is_single_reply(j, w),
                Json::Array(items) => r matches Ok(t) && exists|w: Json|
                    t@ == json_text(w) && is_batch_reply(items@, w),
                _ => r == Err::<String, ServeError>(ServeError::UnsupportedPayload),
            },
        },
{
    match Json::parse(body) {
        None => Err(ServeError::InvalidJson),
        Some(j) => match j {
            Json::Object(f) => {
                let w = handle_single(handler, Json::Object(f));
                Ok(w.to_text())
            },
            Json::Array(items) => {
                let w = handle_batch(handler, items);
                Ok(w.to_text())
            },
            _ => Err(ServeError::UnsupportedPayload),
        },
    }
}

} // verus!
