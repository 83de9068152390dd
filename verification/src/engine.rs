//! What the engine said, as plain values.
//!
//! The dispatcher wraps a synchronous QUIC engine that lives outside this
//! crate. Every engine call is made by the embedding code under the
//! connection guard; what the call returned is handed to the verified
//! decision functions as one of these reports. The engine's "nothing to
//! do" sentinel — which signals flow control, an empty event queue, or a
//! drained connection, depending on context — appears here as `Done`, and
//! the decision functions translate it into suspension, end-of-file or a
//! broken-pipe error exactly as the connection state dictates. An engine
//! failure other than the sentinel is reported as `Fail`; the embedding
//! keeps the engine's own error value and surfaces it once the decision
//! function says to.

use vstd::prelude::*;

verus! {

/// What `engine.stream_recv` returned: bytes (with the FIN flag), nothing
/// readable right now, or an engine failure.
#[derive(Clone, Copy, PartialEq, Eq, Structural, Debug)]
pub enum StreamReadReport {
    Data { len: usize, fin: bool },
    Done,
    Fail,
}

/// What `engine.stream_send` returned: bytes accepted, no capacity right
/// now, or an engine failure.
#[derive(Clone, Copy, PartialEq, Eq, Structural, Debug)]
pub enum StreamWriteReport {
    Accepted { len: usize },
    Done,
    Fail,
}

/// What `engine.close` returned: closing started, already closing (the
/// sentinel), or an engine failure.
#[derive(Clone, Copy, PartialEq, Eq, Structural, Debug)]
pub enum CloseReport {
    Started,
    Done,
    Fail,
}

} // verus!
