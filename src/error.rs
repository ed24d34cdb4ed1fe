//! The statuses with which the proxy answers a request that it could not serve.

use vstd::prelude::*;

verus! {

/// A failure of one request, as the status code that the caller sees.
#[derive(Clone, Copy, Debug, PartialEq, Eq, Structural)]
pub enum ErrorStatus {
    /// 400: the request cannot be forwarded.
    BadRequest,
    /// 500: a body could not be read, decoded or encoded.
    InternalServerError,
    /// 502: the upstream could not be reached.
    BadGateway,
}

impl ErrorStatus {
    pub open spec fn spec_code(self) -> u16 {
        match self {
            ErrorStatus::BadRequest => 400,
            ErrorStatus::InternalServerError => 500,
            ErrorStatus::BadGateway => 502,
        }
    }

    /// The numeric HTTP status code.
    pub fn code(&self) -> (r: u16)
        ensures
            r == self.spec_code(),
    {
        match self {
            ErrorStatus::BadRequest => 400,
            ErrorStatus::InternalServerError => 500,
            ErrorStatus::BadGateway => 502,
        }
    }
}

} // verus!
