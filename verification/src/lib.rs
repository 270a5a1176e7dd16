//! Guest-side runtime core for a sandboxed program that talks to its host
//! through one bidirectional byte-stream primitive.
//!
//! The crate holds the packet codec, the receive buffer, the send queue, the
//! service and stream tables, flow control, the suspendable operations and the
//! drive loop's decisions.  Host I/O itself is performed by the embedding
//! program, which hands the results back as plain values.
//!
//! `packet` and `wire` hold the formats.  `recv`, `send`, `streams` and `task`
//! hold the parts of the state, `runtime` and `process` the whole of it.
//! `registry`, `drive`, `dispatch` and `cycle` are the drive loop; `future`
//! and `flow` are the operations that programs await; `service`, `stream` and
//! `buf` are the handles that programs hold.  `invariants` states what holds
//! of the state at all times.  The remaining modules read and write the
//! contents of the calls to single services.

pub mod buf;
pub mod cycle;
pub mod dispatch;
pub mod drive;
pub mod error;
pub mod flow;
pub mod future;
pub mod gate;
pub mod invariants;
pub mod origin;
pub mod packet;
pub mod peer;
pub mod peerindex;
pub mod process;
pub mod random;
pub mod recv;
pub mod registry;
pub mod runtime;
pub mod scope;
pub mod send;
pub mod service;
pub mod shell;
pub mod stream;
pub mod streams;
pub mod task;
pub mod threadunsafe;
pub mod wire;
