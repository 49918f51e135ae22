//! Errors that the gateway answers with.

use vstd::prelude::*;

verus! {

/// The JSON-RPC code of a fault inside the gateway.
pub const INTERNAL_ERROR: i32 = -32603;

/// The JSON-RPC code of a request that the gateway cannot serve.
pub const INVALID_REQUEST: i32 = -32600;

/// An error as it is sent to the client; `data` is JSON text.
#[derive(Debug, PartialEq, Eq)]
pub struct ErrorData {
    pub code: i32,
    pub message: String,
    pub data: Option<String>,
}

impl ErrorData {
    /// Whether the error has this code and message, and no data.
    pub open spec fn says(self, code: i32, message: Seq<char>) -> bool {
        &&& self.code == code
        &&& self.message@ == message
        &&& self.data is None
    }

    /// A fault inside the gateway.
    pub fn internal_error(message: &str) -> (error: ErrorData)
        ensures
            error.says(INTERNAL_ERROR, message@),
    {
        ErrorData { code: INTERNAL_ERROR, message: message.to_owned(), data: None }
    }

    /// A request that the gateway cannot serve.
    pub fn invalid_request(message: &str) -> (error: ErrorData)
        ensures
            error.says(INVALID_REQUEST, message@),
    {
        ErrorData { code: INVALID_REQUEST, message: message.to_owned(), data: None }
    }
}

} // verus!
