//! Core logic of a relay that listens on two message-oriented endpoints:
//! one feeds remote pointer input into a virtual input device, the other
//! streams screen content to connecting clients.
//!
//! The transport (socket binding, handshakes, frame I/O) lives outside this
//! crate; here stand the verified pieces: the wire-message model, the
//! per-connection stream handlers, the session read loop, the listener's
//! bind/accept state machine, and the supervisor's bind-report handshake.

pub mod handler;
pub mod listener;
pub mod message;
pub mod session;
pub mod supervisor;
