//! What can go wrong while a request is decoded or a server is started.

use vstd::prelude::*;

verus! {

/// The failures of the server.
#[derive(Debug, Clone, Copy, PartialEq, Eq, Structural)]
pub enum HttpServerError {
    /// The request as a whole does not have the shape of a request.
    InvalidHttpRequestStructure,
    /// The request line is missing or is not three tokens with one space between each two.
    InvalidRequestLineSyntax,
    /// The first token of the request line is no method that the server knows.
    HttpMethodNotFound,
    /// The version is not of the form `name/major.minor`.
    InvalidHttpVersionFormat,
    /// The server was started while it was running.
    HttpServerAlreadyRunning,
}

} // verus!
