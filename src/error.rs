use vstd::prelude::*;

verus! {

/// Code of a payload that could not be read as a request.
pub const PARSE_ERROR_CODE: i32 = -32700;

/// Code of a call whose method no handler recognises.
pub const UNKNOWN_METHOD_CODE: i32 = -32601;

/// Code of a call whose params do not have the shape its method expects.
pub const INVALID_PARAMS_CODE: i32 = -32602;

/// Code of a failure inside a handler or below the envelope.
pub const INTERNAL_ERROR_CODE: i32 = -32603;

/// The error object of a JSON-RPC response.
#[derive(Debug, Clone)]
pub struct RPCError {
    pub code: i32,
    pub message: String,
    pub data: Option<String>,
}

/// The message that goes with a reserved code.
pub open spec fn reserved_message(code: i32) -> Seq<char> {
    if code == PARSE_ERROR_CODE {
        "Parse error"@
    } else if code == UNKNOWN_METHOD_CODE {
        "Method not found"@
    } else if code == INVALID_PARAMS_CODE {
        "Invalid params"@
    } else {
        "Internal error"@
    }
}

/// The outcome of a call: its value, or the error it failed with.
pub type RPCResult<T> = Result<T, RPCError>;

impl RPCError {
    /// The error has the given reserved code, its fixed message and no data.
    pub open spec fn is_reserved(&self, code: i32) -> bool {
        &&& self.code == code
        &&& self.message@ == reserved_message(code)
        &&& self.data.is_none()
    }

    /// The internal error that carries `data`.
    pub open spec fn is_internal(&self, data: Seq<char>) -> bool {
        &&& self.code == INTERNAL_ERROR_CODE
        &&& self.message@ == reserved_message(INTERNAL_ERROR_CODE)
        &&& self.data.is_some()
        &&& self.data.unwrap()@ == data
    }

    pub fn unknown_method() -> (r: Self)
        ensures
            r.is_reserved(UNKNOWN_METHOD_CODE),
    {
        RPCError { code: UNKNOWN_METHOD_CODE, message: "Method not found".to_owned(), data: None }
    }

    pub fn parse_error() -> (r: Self)
        ensures
            r.is_reserved(PARSE_ERROR_CODE),
    {
        RPCError { code: PARSE_ERROR_CODE, message: "Parse error".to_owned(), data: None }
    }

    pub fn invalid_params() -> (r: Self)
        ensures
            r.is_reserved(INVALID_PARAMS_CODE),
    {
        RPCError { code: INVALID_PARAMS_CODE, message: "Invalid params".to_owned(), data: None }
    }

    pub fn internal_error(data: String) -> (r: Self)
        ensures
            r.is_internal(data@),
    {
        RPCError {
            code: INTERNAL_ERROR_CODE,
            message: "Internal error".to_owned(),
            data: Some(data),
        }
    }
}

} // verus!
