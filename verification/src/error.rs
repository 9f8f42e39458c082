//! Errors that the RPC handlers answer with.

use vstd::prelude::*;

verus! {

/// The kind of an RPC error.
#[derive(Clone, Copy, Debug, PartialEq, Eq, Structural)]
pub enum ErrorCode {
    /// The request itself is unacceptable.
    InvalidArgument,
    /// The request names something that does not exist.
    NotFound,
    /// The service failed while handling an acceptable request.
    Internal,
}

/// An RPC error: its kind and a message for the caller.
#[derive(Debug)]
pub struct RpcError {
    pub code: ErrorCode,
    pub message: String,
}

} // verus!
