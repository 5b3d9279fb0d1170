//! JSON values and JSON-RPC messages, as the request rewriting reads them.
use vstd::prelude::*;

verus! {

/// A JSON value. An object keeps its members in order; a number is kept as
/// its decimal text.
#[derive(Debug, PartialEq, Eq)]
pub enum JsonValue {
    Null,
    Bool(bool),
    Number(String),
    String(String),
    Array(Vec<JsonValue>),
    Object(Vec<(String, JsonValue)>),
}

#[derive(Clone, Debug, PartialEq, Eq)]
pub enum RequestId {
    Integer(i64),
    String(String),
}

/// A JSON-RPC request.
#[derive(Debug, PartialEq, Eq)]
pub struct JsonRpcRequest {
    pub id: RequestId,
    pub method: String,
    pub params: Option<JsonValue>,
}

/// The error member of a JSON-RPC error response.
#[derive(Debug, PartialEq, Eq)]
pub struct JsonRpcError {
    pub code: i64,
    pub message: String,
    pub data: Option<JsonValue>,
}

/// The JSON-RPC code for invalid method parameters.
pub const INVALID_PARAMS_ERROR_CODE: i64 = -32602;

/// An invalid-parameters error with the given message.
pub fn invalid_params(message: String) -> (r: JsonRpcError)
    ensures
        r == (JsonRpcError { code: INVALID_PARAMS_ERROR_CODE, message, data: None }),
{
    JsonRpcError { code: INVALID_PARAMS_ERROR_CODE, message, data: None }
}

} // verus!
