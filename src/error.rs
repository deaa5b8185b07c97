use vstd::prelude::*;

verus! {

#[verifier::external_type_specification]
#[verifier::external_body]
pub struct ExReqwestError(reqwest::Error);

/// Why a delivery attempt or an enqueue did not go through.
pub enum MatrixClientError {
    /// The HTTP layer failed (connection, protocol, body decoding).
    Reqwest(reqwest::Error),
    /// The provider throttled the request.
    TooManyRequest,
    /// A rate-limit header held bytes that are not visible ASCII.
    HeaderParsing,
    /// Rate-limit metadata was missing or not a number.
    Parsing,
    /// The provider answered with a status other than success or throttling.
    Status(u16),
    /// The dispatcher has stopped and takes no more messages.
    ChannelClosed,
}

impl From<reqwest::Error> for MatrixClientError {
    fn from(e: reqwest::Error) -> (r: MatrixClientError)
        ensures
            r == MatrixClientError::Reqwest(e),
    {
        MatrixClientError::Reqwest(e)
    }
}

impl vstd::std_specs::convert::FromSpecImpl<reqwest::Error> for MatrixClientError {
    open spec fn obeys_from_spec() -> bool {
        true
    }

    open spec fn from_spec(e: reqwest::Error) -> MatrixClientError {
        MatrixClientError::Reqwest(e)
    }
}

} // verus!
