//! The owner side of the X11 `CLIPBOARD` selection, as a protocol engine
//! that performs no input or output of its own.
//!
//! The engine decides; its caller talks to the server. Every operation
//! yields a [`Progress`]: either the next [`Request`] to issue together with
//! the [`Task`] that remembers where the operation stands, or the end of the
//! operation. The caller issues the request and hands the outcome back to
//! [`ClipboardState::resume`], until the operation is done.
//!
//! The module [`laws`] states what holds of the owner whatever the clients
//! and the server do.

mod buffer;
pub mod clipboard;
pub mod contents;
pub mod engine;
pub mod format;
pub mod laws;
pub mod protocol;
pub mod state;
pub mod transfer;

pub use clipboard::Clipboard;
pub use engine::{Progress, Task};
pub use format::ClipboardFormat;
pub use protocol::{ClipboardError, Outcome, Request};
pub use state::{ClipboardAtoms, ClipboardState};
