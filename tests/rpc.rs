use json_rpc_server::{
    batch_body, batch_headers, batch_outcome, bearer, call_body, call_headers, call_outcome,
    decode_error, decode_request, decode_response, dispatch, handle_batch, handle_single,
    is_success, parse_error_reply, respond, CallError, ExampleHandle, Handle, Json, RPCError,
    RPCRequest, RPCResponse, ServeError,
};
use serde_json::Value;

fn value(text: &str) -> Value {
    serde_json::from_str(text).unwrap()
}

fn json(text: &str) -> Json {
    Json::parse(text.as_bytes()).unwrap()
}

fn reply(body: &str) -> Value {
    value(&dispatch(&ExampleHandle, body.as_bytes()).unwrap())
}

struct Failing;

impl Handle for Failing {
    fn handle(&self, method: &str, _params: Option<Json>) -> Result<Option<Json>, RPCError> {
        if method == "ok" {
            Ok(None)
        } else {
            Err(RPCError {
                code: 7,
                message: String::from("custom"),
                data: Some(String::from(method)),
            })
        }
    }
}

#[test]
fn reserved_errors() {
    let e = RPCError::unknown_method();
    assert_eq!((e.code, e.message.as_str(), e.data), (-32601, "Method not found", None));
    let e = RPCError::parse_error();
    assert_eq!((e.code, e.message.as_str(), e.data), (-32700, "Parse error", None));
    let e = RPCError::invalid_params();
    assert_eq!((e.code, e.message.as_str(), e.data), (-32602, "Invalid params", None));
    let e = RPCError::internal_error(String::from("boom"));
    assert_eq!(e.code, -32603);
    assert_eq!(e.message, "Internal error");
    assert_eq!(e.data.as_deref(), Some("boom"));
}

#[test]
fn error_wire_omits_absent_data() {
    let w = RPCError::invalid_params().into_value().to_text();
    assert_eq!(value(&w), value(r#"{"code":-32602,"message":"Invalid params"}"#));
    let w = RPCError::internal_error(String::from("x")).into_value().to_text();
    assert_eq!(value(&w), value(r#"{"code":-32603,"message":"Internal error","data":"x"}"#));
}

#[test]
fn scenario_example_fn1() {
    let out = reply(r#"{"jsonrpc":"2.0","method":"example_fn1","params":[10,true],"id":1}"#);
    assert_eq!(out, value(r#"{"jsonrpc":"2.0","result":[10,true],"id":1}"#));
}

#[test]
fn scenario_unknown_method() {
    let out = reply(r#"{"jsonrpc":"2.0","method":"nope","params":[1],"id":"abc"}"#);
    assert_eq!(
        out,
        value(r#"{"jsonrpc":"2.0","error":{"code":-32601,"message":"Method not found"},"id":"abc"}"#)
    );
}

#[test]
fn scenario_batch_example_fn2() {
    let out = reply(r#"[{"jsonrpc":"2.0","method":"example_fn2","params":[100],"id":2}]"#);
    assert_eq!(out, value(r#"[{"jsonrpc":"2.0","result":[100],"id":2}]"#));
}

#[test]
fn scenario_top_level_string_is_rejected() {
    assert_eq!(dispatch(&ExampleHandle, br#""hello""#), Err(ServeError::UnsupportedPayload));
    assert_eq!(dispatch(&ExampleHandle, b"42"), Err(ServeError::UnsupportedPayload));
    assert_eq!(dispatch(&ExampleHandle, b"null"), Err(ServeError::UnsupportedPayload));
    assert_eq!(dispatch(&ExampleHandle, b"{not json"), Err(ServeError::InvalidJson));
    assert_eq!(dispatch(&ExampleHandle, b""), Err(ServeError::InvalidJson));
}

#[test]
fn id_is_echoed_in_its_form() {
    for id in ["1", "1.0", "\"x\"", "null", "-7", "[1,2]"] {
        let body = format!(r#"{{"jsonrpc":"2.0","method":"nope","id":{id}}}"#);
        let out = dispatch(&ExampleHandle, body.as_bytes()).unwrap();
        let got = value(&out);
        assert_eq!(got["id"], value(id));
        assert_eq!(got["id"].to_string(), id);
    }
}

#[test]
fn invalid_params_code() {
    let out = reply(r#"{"jsonrpc":"2.0","method":"example_fn1","params":["a",true],"id":3}"#);
    assert_eq!(out["error"]["code"], value("-32602"));
    let out = reply(r#"{"jsonrpc":"2.0","method":"example_fn1","params":[4294967296,true],"id":3}"#);
    assert_eq!(out["error"]["code"], value("-32602"));
    let out = reply(r#"{"jsonrpc":"2.0","method":"example_fn1","params":[1.0,true],"id":3}"#);
    assert_eq!(out["error"]["code"], value("-32602"));
    let out = reply(r#"{"jsonrpc":"2.0","method":"example_fn2","params":[1,2],"id":3}"#);
    assert_eq!(out["error"]["code"], value("-32602"));
    let out = reply(r#"{"jsonrpc":"2.0","method":"example_fn2","id":3}"#);
    assert_eq!(out["error"]["message"], value(r#""Invalid params""#));
    assert_eq!(out["id"], value("3"));
}

#[test]
fn example_handle_direct() {
    let r = ExampleHandle.handle("example_fn2", Some(json("[18446744073709551615]"))).unwrap();
    assert_eq!(r.unwrap().to_text(), "[18446744073709551615]");
    let r = ExampleHandle.answer_call("example_fn1", Some(json("[0,false]"))).unwrap();
    assert_eq!(r.unwrap().to_text(), "[0,false]");
    let e = ExampleHandle.answer_call("other", None).unwrap_err();
    assert_eq!(e.code, -32601);
}

#[test]
fn batch_keeps_order_and_ids() {
    let out = reply(
        r#"[{"jsonrpc":"2.0","method":"example_fn2","params":[5],"id":"a"},
            {"jsonrpc":"2.0","method":"nope","id":null},
            {"jsonrpc":"2.0","method":"example_fn1","params":[1,false],"id":9}]"#,
    );
    assert_eq!(
        out,
        value(
            r#"[{"jsonrpc":"2.0","result":[5],"id":"a"},
                {"jsonrpc":"2.0","error":{"code":-32601,"message":"Method not found"},"id":null},
                {"jsonrpc":"2.0","result":[1,false],"id":9}]"#
        )
    );
}

#[test]
fn empty_batch_gives_empty_array() {
    assert_eq!(reply("[]"), value("[]"));
}

#[test]
fn malformed_batch_item_rejects_batch() {
    let out = reply(r#"[{"jsonrpc":"2.0","method":"example_fn2","params":[5],"id":1}, {"id":2}]"#);
    assert_eq!(
        out,
        value(r#"{"jsonrpc":"2.0","error":{"code":-32700,"message":"Parse error"},"id":null}"#)
    );
}

#[test]
fn malformed_single_request_gets_parse_error() {
    for body in [
        r#"{"jsonrpc":"2.0","id":1}"#,
        r#"{"jsonrpc":"2.0","method":5,"id":1}"#,
        r#"{"method":"nope","id":1}"#,
        r#"{"jsonrpc":"2.0","method":"nope"}"#,
    ] {
        let out = reply(body);
        assert_eq!(out["error"]["code"], value("-32700"));
        assert_eq!(out["id"], Value::Null);
    }
    assert_eq!(
        value(&parse_error_reply().to_text()),
        value(r#"{"jsonrpc":"2.0","error":{"code":-32700,"message":"Parse error"},"id":null}"#)
    );
}

#[test]
fn handler_errors_stay_per_item() {
    let items = match json(r#"[{"jsonrpc":"2.0","method":"bad","id":1},{"jsonrpc":"2.0","method":"ok","id":2}]"#) {
        Json::Array(a) => a,
        _ => panic!("not an array"),
    };
    let out = value(&handle_batch(&Failing, items).to_text());
    assert_eq!(
        out,
        value(
            r#"[{"jsonrpc":"2.0","error":{"code":7,"message":"custom","data":"bad"},"id":1},
                {"jsonrpc":"2.0","result":null,"id":2}]"#
        )
    );
}

#[test]
fn default_batch_handle() {
    let reqs = vec![
        RPCRequest { jsonrpc: String::from("2.0"), method: String::from("ok"), params: None, id: json("\"p\"") },
        RPCRequest { jsonrpc: String::from("2.0"), method: String::from("no"), params: None, id: json("3") },
    ];
    let rs = Failing.batch_handle(reqs);
    assert_eq!(rs.len(), 2);
    assert_eq!(rs[0].id.to_text(), "\"p\"");
    assert!(rs[0].error.is_none());
    assert_eq!(rs[1].id.to_text(), "3");
    assert_eq!(rs[1].error.as_ref().unwrap().code, 7);
    assert!(rs[1].result.is_none());
}

#[test]
fn single_reply_never_has_both() {
    let w = handle_single(&Failing, json(r#"{"jsonrpc":"2.0","method":"ok","id":1}"#)).to_text();
    let v = value(&w);
    assert!(v.get("result").is_some() && v.get("error").is_none());
    assert_eq!(v["result"], Value::Null);
    let w = handle_single(&Failing, json(r#"{"jsonrpc":"2.0","method":"x","id":1}"#)).to_text();
    let v = value(&w);
    assert!(v.get("result").is_none() && v.get("error").is_some());
}

#[test]
fn response_into_value() {
    let r: RPCResponse<Json> = RPCResponse::result(json("5"), Some(json("[1]")));
    assert_eq!(value(&r.into_value().to_text()), value(r#"{"jsonrpc":"2.0","result":[1],"id":5}"#));
    let r: RPCResponse<Json> = RPCResponse::error(json("5"), RPCError::parse_error());
    assert_eq!(
        value(&r.into_value().to_text()),
        value(r#"{"jsonrpc":"2.0","error":{"code":-32700,"message":"Parse error"},"id":5}"#)
    );
    let r = respond(json("\"k\""), Ok(None));
    assert_eq!(value(&r.into_value().to_text()), value(r#"{"jsonrpc":"2.0","result":null,"id":"k"}"#));
}

#[test]
fn request_decoding() {
    let q = decode_request(json(r#"{"jsonrpc":"2.0","method":"m","params":null,"id":1.5,"extra":0}"#)).unwrap();
    assert_eq!(q.jsonrpc, "2.0");
    assert_eq!(q.method, "m");
    assert!(q.params.is_none());
    assert_eq!(q.id.to_text(), "1.5");
    let q = decode_request(json(r#"{"jsonrpc":"2.0","method":"m","params":{"a":1},"id":null}"#)).unwrap();
    assert_eq!(q.params.unwrap().to_text(), r#"{"a":1}"#);
    assert!(decode_request(json(r#"[1]"#)).is_none());
    assert!(decode_request(json(r#"{"jsonrpc":2,"method":"m","id":1}"#)).is_none());
}

#[test]
fn new_request_has_id_one() {
    let q = RPCRequest::new("example_fn1", json("[10,true]"));
    assert_eq!(q.jsonrpc, "2.0");
    assert_eq!(q.method, "example_fn1");
    assert_eq!(q.id.to_text(), "1");
    assert_eq!(
        value(&q.into_value().to_text()),
        value(r#"{"jsonrpc":"2.0","method":"example_fn1","params":[10,true],"id":1}"#)
    );
}

#[test]
fn call_body_and_batch_body() {
    let b = call_body("example_fn2", json("[100]"));
    assert_eq!(value(&b), value(r#"{"jsonrpc":"2.0","method":"example_fn2","params":[100],"id":1}"#));
    let b = batch_body(vec![RPCRequest::new("a", Json::Null), RPCRequest::new("b", json("[1]"))]);
    assert_eq!(
        value(&b),
        value(r#"[{"jsonrpc":"2.0","method":"a","params":null,"id":1},{"jsonrpc":"2.0","method":"b","params":[1],"id":1}]"#)
    );
}

#[test]
fn headers_and_bearer() {
    assert_eq!(bearer("tok"), "Bearer tok");
    let h = call_headers(Some("tok"));
    assert_eq!(
        h,
        vec![
            (String::from("content-type"), String::from("application/json")),
            (String::from("User-Agent"), String::from("hyper-client")),
            (String::from("Authorization"), String::from("Bearer tok")),
        ]
    );
    assert_eq!(call_headers(None).len(), 2);
    let h = batch_headers(Some("t"));
    assert_eq!(h[1], (String::from("Authorization"), String::from("Bearer t")));
    assert_eq!(batch_headers(None), vec![(String::from("content-type"), String::from("application/json"))]);
}

#[test]
fn success_statuses() {
    assert!(is_success(200));
    assert!(is_success(299));
    assert!(!is_success(199));
    assert!(!is_success(300));
    assert!(!is_success(500));
}

#[test]
fn failed_status_is_internal_error_whatever_the_body() {
    for status in [400u16, 404, 500, 302, 100] {
        let e = call_outcome(status, br#"{"jsonrpc":"2.0","result":[1],"id":1}"#).unwrap_err();
        assert_eq!(e.code, -32603);
        assert_eq!(e.message, "Internal error");
        assert_eq!(e.data.as_deref(), Some("Failed to request uri"));
        let e = call_outcome(status, b"garbage").unwrap_err();
        assert_eq!(e.code, -32603);
    }
}

#[test]
fn call_outcome_reads_response() {
    let r = call_outcome(200, br#"{"jsonrpc":"2.0","result":[10,true],"id":1}"#).unwrap();
    assert_eq!(r.unwrap().to_text(), "[10,true]");
    let r = call_outcome(200, br#"{"jsonrpc":"2.0","result":null,"id":1}"#).unwrap();
    assert!(r.is_none());
    let e = call_outcome(
        200,
        br#"{"jsonrpc":"2.0","error":{"code":-32601,"message":"Method not found"},"id":1}"#,
    )
    .unwrap_err();
    assert_eq!((e.code, e.message.as_str(), e.data), (-32601, "Method not found", None));
    let e = call_outcome(200, br#"{"jsonrpc":"2.0","error":{"code":1.5,"message":"m"},"id":1}"#).unwrap_err();
    assert_eq!(e.code, -32603);
    assert_eq!(e.data.as_deref(), Some("Invalid response body"));
    let e = call_outcome(201, b"not json").unwrap_err();
    assert_eq!(e.data.as_deref(), Some("Invalid response body"));
}

#[test]
fn batch_outcome_reads_responses() {
    assert_eq!(batch_outcome(503, b"[]").unwrap_err(), CallError::HttpStatus(503));
    assert_eq!(batch_outcome(200, b"{}").unwrap_err(), CallError::InvalidBody);
    assert_eq!(batch_outcome(200, b"[1]").unwrap_err(), CallError::InvalidBody);
    let rs = batch_outcome(
        200,
        br#"[{"jsonrpc":"2.0","result":[100],"id":2},{"jsonrpc":"2.0","error":{"code":-32602,"message":"Invalid params","data":"d"},"id":3}]"#,
    )
    .unwrap();
    assert_eq!(rs.len(), 2);
    assert_eq!(rs[0].result.as_ref().unwrap().to_text(), "[100]");
    assert_eq!(rs[0].id.to_text(), "2");
    let e = rs[1].error.as_ref().unwrap();
    assert_eq!((e.code, e.data.as_deref()), (-32602, Some("d")));
    assert!(rs[1].result.is_none());
}

#[test]
fn response_and_error_decoding() {
    let r = decode_response(json(r#"{"jsonrpc":"2.0","error":null,"result":3,"id":"z"}"#)).unwrap();
    assert!(r.error.is_none());
    assert_eq!(r.result.unwrap().to_text(), "3");
    assert!(decode_response(json(r#"{"jsonrpc":"2.0","result":3}"#)).is_none());
    let e = decode_error(json(r#"{"code":-5,"message":"m","data":null}"#)).unwrap();
    assert_eq!((e.code, e.data), (-5, None));
    assert!(decode_error(json(r#"{"code":2147483648,"message":"m"}"#)).is_none());
    assert!(decode_error(json(r#"{"code":1,"message":"m","data":1}"#)).is_none());
}

#[test]
fn numbers_and_text() {
    assert_eq!(Json::from_i32(-32601).to_text(), "-32601");
    assert_eq!(Json::from_i32(0).to_text(), "0");
    assert_eq!(Json::from_u64(u64::MAX).to_text(), "18446744073709551615");
    assert_eq!(json("-12").as_i32(), Some(-12));
    assert_eq!(json("2.5").as_i32(), None);
    assert_eq!(json("7").as_u64(), Some(7));
    assert_eq!(json("-7").as_u64(), None);
    assert_eq!(json("[1.0,1]").to_text(), "[1.0,1]");
    assert!(Json::parse(b"[1,").is_none());
    assert_eq!(json(r#"{"b":1,"a":"x"}"#).to_text(), r#"{"a":"x","b":1}"#);
}

#[test]
fn request_wire_reads_back() {
    let w = RPCRequest::new("m", json(r#"{"k":[1.0]}"#)).into_value();
    let back = decode_request(w).unwrap();
    assert_eq!(back.jsonrpc, "2.0");
    assert_eq!(back.method, "m");
    assert_eq!(back.params.unwrap().to_text(), r#"{"k":[1.0]}"#);
    assert_eq!(back.id.to_text(), "1");
    let back = decode_request(RPCRequest::new("m", Json::Null).into_value()).unwrap();
    assert!(back.params.is_none());
}

#[test]
fn response_wire_reads_back() {
    let e = RPCError::internal_error(String::from("why"));
    let back = decode_response(respond(json("\"id\""), Err(e)).into_value()).unwrap();
    assert_eq!(back.id.to_text(), "\"id\"");
    let be = back.error.unwrap();
    assert_eq!((be.code, be.message.as_str(), be.data.as_deref()), (-32603, "Internal error", Some("why")));
    assert!(back.result.is_none());
    let back = decode_response(respond(json("4"), Ok(Some(json("[true]")))).into_value()).unwrap();
    assert!(back.error.is_none());
    assert_eq!(back.result.unwrap().to_text(), "[true]");
    let back = decode_response(respond(json("4"), Ok(None)).into_value()).unwrap();
    assert!(back.result.is_none() && back.error.is_none());
}
