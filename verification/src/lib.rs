//! A sans-I/O core for a Graphite plaintext client.
//!
//! The client holds one connection to one endpoint and pushes batches of
//! pre-formatted metric records through it, one record per line. When a write
//! fails it reconnects once and writes the batch once more; it never tries a
//! third time. The crate decides and keeps state; it performs no I/O. A
//! driver connects, writes and flushes as the client asks, and reports back
//! what came of it.
//!
//! - [`wire`]: the line format of a batch.
//! - [`policy`]: the write, reconnect, write-again state machine and its
//!   bounds.
//! - [`client`]: the client itself, its model and what holds of it.
//! - [`error`]: the failures a delivery can end with.

pub mod client;
pub mod error;
pub mod policy;
pub mod wire;

pub use crate::client::{Graphite, LocalGraphite};
pub use crate::error::Error;
pub use crate::policy::{Action, Event, Outcome, Phase, Step};
