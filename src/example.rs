use vstd::prelude::*;

use crate::error::{RPCError, INVALID_PARAMS_CODE, UNKNOWN_METHOD_CODE};
use crate::json::{nat_text, unsigned_value, Json};
use crate::server::Handle;

verus! {

/// A handler with two methods: `example_fn1` takes `[u32, bool]` and
/// `example_fn2` takes `[u64]`; each answers with its params as it read them.
#[derive(Debug, Clone, Copy)]
pub struct ExampleHandle;

/// `j` is a number that reads as a natural number no larger than `max`.
pub open spec fn is_uint(j: Json, max: int) -> bool {
    j matches Json::Number(t) && unsigned_value(t@) matches Some(v) && v <= max
}

/// The value of a number that `is_uint` accepts.
pub open spec fn uint_of(j: Json) -> int {
    unsigned_value(j->Number_0@).unwrap()
}

/// `params` has the shape of `example_fn1`: `[u32, bool]`.
pub open spec fn is_fn1_params(params: Option<Json>) -> bool {
    params matches Some(Json::Array(a)) && a@.len() == 2 && is_uint(a@[0], u32::MAX as int)
        && a@[1] is Bool
}

/// `params` has the shape of `example_fn2`: `[u64]`.
pub open spec fn is_fn2_params(params: Option<Json>) -> bool {
    params matches Some(Json::Array(a)) && a@.len() == 1 && is_uint(a@[0], u64::MAX as int)
}

/// `j` is a number written as the decimal digits of `v`.
pub open spec fn is_number_of(j: Json, v: int) -> bool {
    j matches Json::Number(t) && t@ == nat_text(v as nat)
}

impl ExampleHandle {
    /// Answers `method` with `params`.
    pub fn answer_call(&self, method: &str, params: Option<Json>) -> (r: Result<Option<Json>, RPCError>)
        ensures
            method@ == "example_fn1"@ ==> if is_fn1_params(params) {
                r matches Ok(Some(Json::Array(o))) && o@.len() == 2
                    && is_number_of(o@[0], uint_of(params->Some_0->Array_0@[0]))
                    && o@[1] == params->Some_0->Array_0@[1]
            } else {
                r matches Err(e) && e.is_reserved(INVALID_PARAMS_CODE)
            },
            method@ == "example_fn2"@ ==> if is_fn2_params(params) {
                r matches Ok(Some(Json::Array(o))) && o@.len() == 1
                    && is_number_of(o@[0], uint_of(params->Some_0->Array_0@[0]))
            } else {
                r matches Err(e) && e.is_reserved(INVALID_PARAMS_CODE)
            },
            method@ != "example_fn1"@ && method@ != "example_fn2"@ ==> (r matches Err(e)
                && e.is_reserved(UNKNOWN_METHOD_CODE)),
    {
        proof {
            reveal_strlit("example_fn1");
            reveal_strlit("example_fn2");
            assert("example_fn1"@[10] != "example_fn2"@[10]);
        }
        let m = method.to_owned();
        if m == "example_fn1".to_owned() {
            match params {
                Some(Json::Array(a)) => {
                    let ghost ga = a;
                    if a.len() == 2 {
                        if let Some(n) = a[0].as_u64() {
                            if n <= 4294967295 {
                                if let Json::Bool(b) = a[1] {
                                    let mut o: Vec<Json> = Vec::new();
                                    o.push(Json::from_u64(n));
                                    o.push(Json::Bool(b));
                                    assert(o@[1] == ga@[1]);
                                    assert(is_number_of(o@[0], uint_of(ga@[0])));
                                    return Ok(Some(Json::Array(o)));
                                }
                            }
                        }
                    }
                    Err(RPCError::invalid_params())
                },
                _ => Err(RPCError::invalid_params()),
            }
        } else if m == "example_fn2".to_owned() {
            match params {
                Some(Json::Array(a)) => {
                    if a.len() == 1 {
                        if let Some(n) = a[0].as_u64() {
                            let mut o: Vec<Json> = Vec::new();
                            o.push(Json::from_u64(n));
                            return Ok(Some(Json::Array(o)));
                        }
                    }
                    Err(RPCError::invalid_params())
                },
                _ => Err(RPCError::invalid_params()),
            }
        } else {
            Err(RPCError::unknown_method())
        }
    }
}

impl Handle for ExampleHandle {
    fn handle(&self, method: &str, params: Option<Json>) -> Result<Option<Json>, RPCError> {
        self.answer_call(method, params)
    }
}

} // verus!
