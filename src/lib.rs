//! JSON-RPC 2.0 over HTTP: request and response envelopes, the reserved
//! error codes, and the dispatch of single and batched calls to a handler.
//!
//! The transport itself (sockets, TLS, HTTP framing) is left to the caller;
//! this crate turns request bodies into response bodies and response bodies
//! into call outcomes.

pub mod client;
pub mod error;
pub mod example;
pub mod json;
pub mod server;
pub mod types;

pub use client::{
    batch_body, batch_headers, batch_outcome, bearer, call_body, call_headers, call_outcome,
    is_success, CallError,
};
pub use error::{
    RPCError, RPCResult, INTERNAL_ERROR_CODE, INVALID_PARAMS_CODE, PARSE_ERROR_CODE,
    UNKNOWN_METHOD_CODE,
};
pub use example::ExampleHandle;
pub use json::{take_fields, Json};
pub use server::{
    answer, dispatch, handle_batch, handle_single, parse_error_reply, respond, Handle, ServeError,
};
pub use types::{decode_error, decode_request, decode_response, RPCRequest, RPCResponse};
