//! An asynchronous dispatcher for a synchronous QUIC protocol engine.
//!
//! The engine is a sans-I/O QUIC implementation: it computes packets to
//! send, absorbs packets received, and tracks per-stream readability and
//! writability, but it is not safe for concurrent use and knows nothing of
//! task wake-ups. This crate holds the dispatcher's core: the guarded
//! connection record, the waker registry, the accept queue, the closing
//! set, and the decision rules that translate the engine's "nothing to do"
//! sentinel into suspension, end-of-file, or a broken-pipe error.

pub mod clock;
pub mod conn;
pub mod engine;
pub mod events;
pub mod laws;
pub mod slots;
pub mod sort;
pub mod stream_id;
