//! The four-letter-word command contract, and the client endpoint
//! configuration.
//!
//! Executing a command is a three-step round trip: write the command's
//! request word over a fresh TCP connection, read the response text until
//! the peer closes, and hand the text to the command's decoder. The
//! decoder is the verified part; the socket transport performs the round
//! trip outside this crate and calls in with plain text.

use crate::result::ZK4LWResult;
use vstd::prelude::*;

verus! {

/// The contract a four-letter-word command implements: a constant request
/// word, and a pure decoder from raw response body to typed response.
pub trait ZK4LWCommand {
    /// Response produced by a successful execution of the command.
    type Response;

    /// The exact command word this command sends.
    spec fn request_spec() -> Seq<char>;

    /// What every decode outcome satisfies for a given response body. Each
    /// command pins its outcome down as a function of the body alone, so
    /// decoding is deterministic and side-effect-free.
    spec fn response_spec(body: Seq<char>, r: ZK4LWResult<Self::Response>) -> bool;

    /// The literal ASCII command word written to the server; constant, no
    /// runtime computation.
    fn request_body() -> (s: &'static str)
        ensures
            s@ == Self::request_spec(),
    ;

    /// Builds the typed response from a raw response body. Pure: no I/O,
    /// and safe to call repeatedly on the same input.
    fn build_response(response_body: &str) -> (r: ZK4LWResult<Self::Response>)
        ensures
            Self::response_spec(response_body@, r),
    ;
}

/// The four-letter-word client: one fixed endpoint, one fresh connection
/// per command execution, no state shared between executions.
pub struct ZK4LWClient {
    host: String,
    port: u16,
}

impl ZK4LWClient {
    /// The configured host.
    pub closed spec fn spec_host(&self) -> Seq<char> {
        self.host@
    }

    /// The configured port.
    pub closed spec fn spec_port(&self) -> u16 {
        self.port
    }

    /// Creates a new client.
    ///
    /// `host` names a server of the ensemble to send commands to, as an IP
    /// address or a hostname; `port` is the port to send commands on.
    pub fn new(host: String, port: u16) -> (r: Self)
        ensures
            r.spec_host() == host@,
            r.spec_port() == port,
    {
        ZK4LWClient { host, port }
    }

    /// The host this client sends commands to.
    pub fn host(&self) -> (r: &str)
        ensures
            r@ == self.spec_host(),
    {
        self.host.as_str()
    }

    /// The port this client sends commands on.
    pub fn port(&self) -> (r: u16)
        ensures
            r == self.spec_port(),
    {
        self.port
    }
}

} // verus!
