//! A non-blocking HTTP/1.1 client engine.
//!
//! The engine is split into pure, verified parts: the per-call protocol
//! state machine (`call`), the chunked transfer decoder (`chunked`), the
//! connection table that maps reactor tokens to calls (`api`), and the
//! capability interface that TLS backends implement (`tls_api`). Actual
//! socket I/O is performed by the host, which reports each outcome back to
//! the state machine.
use vstd::prelude::*;

pub mod chunked;
pub mod types;
pub mod bindings;
pub mod head;
pub mod call;
pub mod api;
pub mod tls_api;

pub use api::{Call, CallBuilder, CallRef, Httpc, HttpcCfg};
pub use bindings::ResponseHead;
pub use call::{CallImpl, Dir, IoOutcome, RecvPlan, RecvState, ResponseBody, SendPlan, SendState, Step};
pub use chunked::ChunkIndex;
pub use types::{CallBuilderImpl, Header, Request};

verus! {

/// Errors reported by the engine.
#[derive(Debug, PartialEq, Eq, Structural, Clone, Copy)]
pub enum Error {
    /// Response over max_response limit.
    ResponseTooBig,
    /// Connection closed.
    Closed,
    /// No host found in request.
    NoHost,
    /// Invalid scheme.
    InvalidScheme,
    /// All slots for connections are full.
    NoSpace,
    /// No TLS backend was selected.
    NoTls,
    /// Error while parsing a chunked stream.
    ChunkedParse,
    /// Malformed status line or headers.
    Httparse,
    /// The websocket upgrade was refused by the peer.
    WebSocketFail,
    /// A transport level I/O failure that is not transient.
    Io,
    /// A chunk was larger than the configured maximum chunk size.
    ChunkOverlimit(usize),
    /// The request's `content-length` header is not a decimal number.
    InvalidContentLength,
}

} // verus!
