use vstd::prelude::*;

use crate::error::RPCError;
use crate::json::{
    field_of, int_text, lemma_field_of_distinct, lemma_int_text_reads_back, signed_value, take_fields,
    Json,
};

verus! {

/// A request envelope: the method to call, its params and the id that the
/// response echoes.
#[derive(Debug)]
pub struct RPCRequest<T> {
    pub jsonrpc: String,
    pub method: String,
    pub params: T,
    pub id: Json,
}

/// A response envelope: a result or an error, and the id of its request.
#[derive(Debug)]
pub struct RPCResponse<T> {
    pub jsonrpc: String,
    pub result: Option<T>,
    pub error: Option<RPCError>,
    pub id: Json,
}

/// An optional member as serde reads it into an `Option`: null counts as absent.
pub open spec fn optional(o: Option<Json>) -> Option<Json> {
    match o {
        Some(Json::Null) => None,
        _ => o,
    }
}

/// `o` is present and a string.
pub open spec fn is_some_str(o: Option<Json>) -> bool {
    o matches Some(Json::Str(_))
}

/// The number text `t` is an integer that fits in `i32`.
pub open spec fn is_i32_text(t: Seq<char>) -> bool {
    signed_value(t) matches Some(v) && i32::MIN <= v <= i32::MAX
}

/// The wire form of an error object: `code`, `message`, and `data` only when
/// there is some.
pub open spec fn is_error_wire(j: Json, e: RPCError) -> bool {
    match j {
        Json::Object(f) => {
            &&& f@.len() == (if e.data.is_some() { 3int } else { 2int })
            &&& f@[0].0@ == "code"@
            &&& f@[0].1 matches Json::Number(t) && t@ == int_text(e.code as int)
            &&& f@[1].0@ == "message"@
            &&& f@[1].1 == Json::Str(e.message)
            &&& e.data.is_some() ==> f@[2].0@ == "data"@ && f@[2].1 == Json::Str(e.data.unwrap())
        },
        _ => false,
    }
}

/// The wire form of a response: `jsonrpc`, then `error` if there is one and
/// `result` (null when absent) otherwise, then `id`.
pub open spec fn is_response_wire(j: Json, resp: RPCResponse<Json>) -> bool {
    match j {
        Json::Object(f) => {
            &&& f@.len() == 3
            &&& f@[0].0@ == "jsonrpc"@
            &&& f@[0].1 == Json::Str(resp.jsonrpc)
            &&& match resp.error {
                Some(e) => f@[1].0@ == "error"@ && is_error_wire(f@[1].1, e),
                None => f@[1].0@ == "result"@ && f@[1].1 == (match resp.result {
                    Some(v) => v,
                    None => Json::Null,
                }),
            }
            &&& f@[2].0@ == "id"@
            &&& f@[2].1 == resp.id
        },
        _ => false,
    }
}

/// The wire form of a request: `jsonrpc`, `method`, `params`, `id`.
pub open spec fn is_request_wire(j: Json, q: RPCRequest<Json>) -> bool {
    match j {
        Json::Object(f) => {
            &&& f@.len() == 4
            &&& f@[0].0@ == "jsonrpc"@ && f@[0].1 == Json::Str(q.jsonrpc)
            &&& f@[1].0@ == "method"@ && f@[1].1 == Json::Str(q.method)
            &&& f@[2].0@ == "params"@ && f@[2].1 == q.params
            &&& f@[3].0@ == "id"@ && f@[3].1 == q.id
        },
        _ => false,
    }
}

/// `j` is an object that reads as a request: `jsonrpc` and `method` are
/// strings and `id` is present.
pub open spec fn is_request_object(j: Json) -> bool {
    match j {
        Json::Object(f) => {
            &&& is_some_str(field_of(f@, "jsonrpc"@))
            &&& is_some_str(field_of(f@, "method"@))
            &&& field_of(f@, "id"@).is_some()
        },
        _ => false,
    }
}

/// `q` is the request that the object `j` reads as.
pub open spec fn decodes_request(j: Json, q: RPCRequest<Option<Json>>) -> bool {
    match j {
        Json::Object(f) => {
            &&& field_of(f@, "jsonrpc"@) == Some(Json::Str(q.jsonrpc))
            &&& field_of(f@, "method"@) == Some(Json::Str(q.method))
            &&& q.params == optional(field_of(f@, "params"@))
            &&& field_of(f@, "id"@) == Some(q.id)
        },
        _ => false,
    }
}

/// `j` is an object that reads as an error: an `i32` code, a string message
/// and, if present and not null, a string `data`.
pub open spec fn is_error_object(j: Json) -> bool {
    match j {
        Json::Object(f) => {
            &&& field_of(f@, "code"@) matches Some(Json::Number(t)) && is_i32_text(t@)
            &&& is_some_str(field_of(f@, "message"@))
            &&& optional(field_of(f@, "data"@)) is None || is_some_str(field_of(f@, "data"@))
        },
        _ => false,
    }
}

/// `e` is the error that the object `j` reads as.
pub open spec fn decodes_error(j: Json, e: RPCError) -> bool {
    match j {
        Json::Object(f) => {
            &&& field_of(f@, "code"@) matches Some(Json::Number(t)) && signed_value(t@) == Some(
                e.code as int,
            )
            &&& field_of(f@, "message"@) == Some(Json::Str(e.message))
            &&& match optional(field_of(f@, "data"@)) {
                Some(Json::Str(s)) => e.data == Some(s),
                _ => e.data is None,
            }
        },
        _ => false,
    }
}

/// `j` is an object that reads as a response: `jsonrpc` is a string, `id` is
/// present, and `error`, unless absent or null, reads as an error.
pub open spec fn is_response_object(j: Json) -> bool {
    match j {
        Json::Object(f) => {
            &&& is_some_str(field_of(f@, "jsonrpc"@))
            &&& field_of(f@, "id"@).is_some()
            &&& match optional(field_of(f@, "error"@)) {
                Some(ej) => is_error_object(ej),
                None => true,
            }
        },
        _ => false,
    }
}

/// `r` is the response that the object `j` reads as.
pub open spec fn decodes_response(j: Json, r: RPCResponse<Json>) -> bool {
    match j {
        Json::Object(f) => {
            &&& field_of(f@, "jsonrpc"@) == Some(Json::Str(r.jsonrpc))
            &&& field_of(f@, "id"@) == Some(r.id)
            &&& r.result == optional(field_of(f@, "result"@))
            &&& match optional(field_of(f@, "error"@)) {
                Some(ej) => r.error matches Some(e) && decodes_error(ej, e),
                None => r.error is None,
            }
        },
        _ => false,
    }
}

impl<T> RPCRequest<T> {
    /// A request for `method` with the fixed id `1`.
    pub fn new(method: &str, params: T) -> (r: Self)
        ensures
            r.jsonrpc@ == "2.0"@,
            r.method@ == method@,
            r.params == params,
            r.id matches Json::Number(t) && t@ == int_text(1),
    {
        RPCRequest {
            jsonrpc: "2.0".to_owned(),
            method: method.to_owned(),
            params,
            id: Json::from_i32(1),
        }
    }
}

impl RPCRequest<Json> {
    /// The wire form of this request.
    pub fn into_value(self) -> (r: Json)
        ensures
            is_request_wire(r, self),
    {
        let mut f: Vec<(String, Json)> = Vec::new();
        f.push(("jsonrpc".to_owned(), Json::Str(self.jsonrpc)));
        f.push(("method".to_owned(), Json::Str(self.method)));
        f.push(("params".to_owned(), self.params));
        f.push(("id".to_owned(), self.id));
        Json::Object(f)
    }
}

impl<T> RPCResponse<T> {
    /// At most one of `result` and `error` is set.
    pub open spec fn is_exclusive(&self) -> bool {
        !(self.result.is_some() && self.error.is_some())
    }

    /// The success response for `id`.
    pub fn result(id: Json, t: Option<T>) -> (r: Self)
        ensures
            r.jsonrpc@ == "2.0"@,
            r.result == t,
            r.error is None,
            r.id == id,
    {
        RPCResponse { jsonrpc: "2.0".to_owned(), result: t, error: None, id }
    }

    /// The error response for `id`.
    pub fn error(id: Json, e: RPCError) -> (r: Self)
        ensures
            r.jsonrpc@ == "2.0"@,
            r.result is None,
            r.error == Some(e),
            r.id == id,
    {
        RPCResponse { jsonrpc: "2.0".to_owned(), result: None, error: Some(e), id }
    }
}

impl RPCError {
    /// The wire form of this error.
    pub fn into_value(self) -> (r: Json)
        ensures
            is_error_wire(r, self),
    {
        let mut f: Vec<(String, Json)> = Vec::new();
        f.push(("code".to_owned(), Json::from_i32(self.code)));
        f.push(("message".to_owned(), Json::Str(self.message)));
        if let Some(d) = self.data {
            f.push(("data".to_owned(), Json::Str(d)));
        }
        Json::Object(f)
    }
}

impl RPCResponse<Json> {
    /// The wire form of this response, which holds exactly one of `result`
    /// and `error`.
    pub fn into_value(self) -> (r: Json)
        ensures
            is_response_wire(r, self),
    {
        let mut f: Vec<(String, Json)> = Vec::new();
        f.push(("jsonrpc".to_owned(), Json::Str(self.jsonrpc)));
        match self.error {
            Some(e) => {
                f.push(("error".to_owned(), e.into_value()));
            },
            None => {
                let v = match self.result {
                    Some(v) => v,
                    None => Json::Null,
                };
                f.push(("result".to_owned(), v));
            },
        }
        f.push(("id".to_owned(), self.id));
        Json::Object(f)
    }
}

/// The wire form of a response holds exactly one of `result` and `error`.
pub proof fn lemma_wire_exclusive(resp: RPCResponse<Json>, w: Json)
    requires
        is_response_wire(w, resp),
    ensures
        w is Object,
        field_of(w->Object_0@, "result"@).is_some() != field_of(w->Object_0@, "error"@).is_some(),
{
    reveal_strlit("jsonrpc");
    reveal_strlit("result");
    reveal_strlit("error");
    reveal_strlit("id");
    let f = w->Object_0@;
    assert(f.drop_last().drop_last().drop_last() =~= Seq::<(String, Json)>::empty());
    assert(f[2].0@ == "id"@);
    assert("id"@.len() == 2 && "result"@.len() == 6 && "error"@.len() == 5);
    assert(f[2].0@ != "result"@);
    assert(f[2].0@ != "error"@);
    assert(f[0].0@ != "result"@);
    assert(f[0].0@ != "error"@);
    assert(f.drop_last().last() == f[1]);
    assert(f.drop_last().drop_last().last() == f[0]);
    assert("result"@ != "error"@);
    let f1 = f.drop_last();
    let f2 = f1.drop_last();
    let f3 = f2.drop_last();
    assert forall|k: Seq<char>| k == "result"@ || k == "error"@ implies field_of(f, k) == (if f[1].0@
        == k {
        Some(f[1].1)
    } else {
        None::<Json>
    }) by {
        assert(field_of(f, k) == field_of(f1, k));
        assert(field_of(f2, k) == field_of(f3, k));
        assert(field_of(f3, k) == None::<Json>);
    }
}

/// The wire form of a request reads back as that request, a null params
/// reading as none.
pub proof fn lemma_request_round_trip(q: RPCRequest<Json>, w: Json, back: RPCRequest<Option<Json>>)
    requires
        is_request_wire(w, q),
    ensures
        is_request_object(w),
        decodes_request(w, back) ==> {
            &&& back.jsonrpc == q.jsonrpc
            &&& back.method == q.method
            &&& back.params == optional(Some(q.params))
            &&& back.id == q.id
        },
{
    reveal_strlit("jsonrpc");
    reveal_strlit("method");
    reveal_strlit("params");
    reveal_strlit("id");
    let f = w->Object_0@;
    assert("jsonrpc"@.len() == 7 && "method"@.len() == 6 && "params"@.len() == 6 && "id"@.len() == 2);
    assert("method"@[0] != "params"@[0]);
    assert(forall|a: int, b: int| 0 <= a < b < f.len() ==> f[a].0@ != f[b].0@);
    lemma_field_of_distinct(f, "jsonrpc"@);
    lemma_field_of_distinct(f, "method"@);
    lemma_field_of_distinct(f, "params"@);
    lemma_field_of_distinct(f, "id"@);
    assert(field_of(f, "jsonrpc"@) == Some(f[0].1));
    assert(field_of(f, "method"@) == Some(f[1].1));
    assert(field_of(f, "params"@) == Some(f[2].1));
    assert(field_of(f, "id"@) == Some(f[3].1));
}

/// The wire form of an error reads back as that error.
pub proof fn lemma_error_round_trip(e: RPCError, w: Json, back: RPCError)
    requires
        is_error_wire(w, e),
    ensures
        is_error_object(w),
        decodes_error(w, back) ==> back == e,
{
    reveal_strlit("code");
    reveal_strlit("message");
    reveal_strlit("data");
    let f = w->Object_0@;
    assert("code"@[0] != "data"@[0]);
    assert(forall|a: int, b: int| 0 <= a < b < f.len() ==> f[a].0@ != f[b].0@);
    lemma_field_of_distinct(f, "code"@);
    lemma_field_of_distinct(f, "message"@);
    lemma_field_of_distinct(f, "data"@);
    assert(field_of(f, "code"@) == Some(f[0].1));
    assert(field_of(f, "message"@) == Some(f[1].1));
    lemma_int_text_reads_back(e.code as int);
    if e.data.is_some() {
        assert(field_of(f, "data"@) == Some(f[2].1));
    } else {
        assert(forall|i: int| 0 <= i < f.len() ==> f[i].0@ != "data"@);
    }
}

/// The wire form of a response reads back as that response: the same id, and
/// its error, or its result where a null result reads as none.
pub proof fn lemma_response_round_trip(resp: RPCResponse<Json>, w: Json, back: RPCResponse<Json>)
    requires
        is_response_wire(w, resp),
    ensures
        is_response_object(w),
        decodes_response(w, back) ==> {
            &&& back.id == resp.id
            &&& back.jsonrpc == resp.jsonrpc
            &&& match resp.error {
                Some(e) => back.error == Some(e) && back.result is None,
                None => back.error is None && back.result == optional(
                    Some(
                        match resp.result {
                            Some(v) => v,
                            None => Json::Null,
                        },
                    ),
                ),
            }
        },
{
    reveal_strlit("jsonrpc");
    reveal_strlit("result");
    reveal_strlit("error");
    reveal_strlit("id");
    let f = w->Object_0@;
    assert("jsonrpc"@.len() == 7 && "result"@.len() == 6 && "error"@.len() == 5 && "id"@.len() == 2);
    assert(forall|a: int, b: int| 0 <= a < b < f.len() ==> f[a].0@ != f[b].0@);
    lemma_field_of_distinct(f, "jsonrpc"@);
    lemma_field_of_distinct(f, "result"@);
    lemma_field_of_distinct(f, "error"@);
    lemma_field_of_distinct(f, "id"@);
    assert(field_of(f, "jsonrpc"@) == Some(f[0].1));
    assert(field_of(f, "id"@) == Some(f[2].1));
    match resp.error {
        Some(e) => {
            assert(field_of(f, "error"@) == Some(f[1].1));
            assert(forall|i: int| 0 <= i < f.len() ==> f[i].0@ != "result"@);
            lemma_error_round_trip(e, f[1].1, e);
            if decodes_response(w, back) {
                let be = back.error.unwrap();
                lemma_error_round_trip(e, f[1].1, be);
            }
        },
        None => {
            assert(field_of(f, "result"@) == Some(f[1].1));
            assert(forall|i: int| 0 <= i < f.len() ==> f[i].0@ != "error"@);
        },
    }
}

/// The request that `j` reads as, or `None` where it is not a request object.
pub fn decode_request(j: Json) -> (r: Option<RPCRequest<Option<Json>>>)
    ensures
        r.is_some() == is_request_object(j),
        r matches Some(q) ==> decodes_request(j, q),
{
    match j {
        Json::Object(f) => {
            let keys = vec![
                "jsonrpc".to_owned(),
                "method".to_owned(),
                "params".to_owned(),
                "id".to_owned(),
            ];
            proof {
                reveal_strlit("jsonrpc");
                reveal_strlit("method");
                reveal_strlit("params");
                reveal_strlit("id");
                assert(keys@[1]@[0] != keys@[2]@[0]);
                assert(keys@[0]@.len() != keys@[1]@.len());
                assert(keys@[0]@.len() != keys@[2]@.len());
                assert(keys@[0]@.len() != keys@[3]@.len());
                assert(keys@[1]@.len() != keys@[3]@.len());
                assert(keys@[2]@.len() != keys@[3]@.len());
            }
            let mut vals = take_fields(f, &keys);
            let id = vals.pop().unwrap();
            let params = vals.pop().unwrap();
            let method = vals.pop().unwrap();
            let jsonrpc = vals.pop().unwrap();
            match (jsonrpc, method, id) {
                (Some(Json::Str(jsonrpc)), Some(Json::Str(method)), Some(id)) => {
                    let params = match params {
                        Some(Json::Null) => None,
                        p => p,
                    };
                    Some(RPCRequest { jsonrpc, method, params, id })
                },
                _ => None,
            }
        },
        _ => None,
    }
}

/// The error that `j` reads as, or `None` where it is not an error object.
pub fn decode_error(j: Json) -> (r: Option<RPCError>)
    ensures
        r.is_some() == is_error_object(j),
        r matches Some(e) ==> decodes_error(j, e),
{
    match j {
        Json::Object(f) => {
            let keys = vec!["code".to_owned(), "message".to_owned(), "data".to_owned()];
            proof {
                reveal_strlit("code");
                reveal_strlit("message");
                reveal_strlit("data");
                assert(keys@[0]@[0] != keys@[2]@[0]);
            }
            let mut vals = take_fields(f, &keys);
            let data = vals.pop().unwrap();
            let message = vals.pop().unwrap();
            let code = vals.pop().unwrap();
            let code = match code {
                Some(c) => c.as_i32(),
                None => None,
            };
            let data = match data {
                None => Some(None),
                Some(Json::Null) => Some(None),
                Some(Json::Str(s)) => Some(Some(s)),
                _ => None,
            };
            match (code, message, data) {
                (Some(code), Some(Json::Str(message)), Some(data)) => Some(
                    RPCError { code, message, data },
                ),
                _ => None,
            }
        },
        _ => None,
    }
}

/// The response that `j` reads as, or `None` where it is not a response object.
pub fn decode_response(j: Json) -> (r: Option<RPCResponse<Json>>)
    ensures
        r.is_some() == is_response_object(j),
        r matches Some(q) ==> decodes_response(j, q),
{
    match j {
        Json::Object(f) => {
            let keys = vec![
                "jsonrpc".to_owned(),
                "result".to_owned(),
                "error".to_owned(),
                "id".to_owned(),
            ];
            proof {
                reveal_strlit("jsonrpc");
                reveal_strlit("result");
                reveal_strlit("error");
                reveal_strlit("id");
                assert(keys@[0]@.len() != keys@[1]@.len());
                assert(keys@[0]@.len() != keys@[2]@.len());
                assert(keys@[0]@.len() != keys@[3]@.len());
                assert(keys@[1]@.len() != keys@[2]@.len());
                assert(keys@[1]@.len() != keys@[3]@.len());
                assert(keys@[2]@.len() != keys@[3]@.len());
            }
            let mut vals = take_fields(f, &keys);
            let id = vals.pop().unwrap();
            let error = vals.pop().unwrap();
            let result = vals.pop().unwrap();
            let jsonrpc = vals.pop().unwrap();
            let error = match error {
                None => Some(None),
                Some(Json::Null) => Some(None),
                Some(e) => match decode_error(e) {
                    Some(e) => Some(Some(e)),
                    None => None,
                },
            };
            let result = match result {
                Some(Json::Null) => None,
                r => r,
            };
            match (jsonrpc, id, error) {
                (Some(Json::Str(jsonrpc)), Some(id), Some(error)) => Some(
                    RPCResponse { jsonrpc, result, error, id },
                ),
                _ => None,
            }
        },
        _ => None,
    }
}

} // verus!
