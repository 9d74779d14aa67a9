//! Client-side D-Bus proxy core.
//!
//! The proxy lets application code invoke methods on, read and write
//! properties of, and subscribe to signals from a remote interface on a
//! remote object. This crate holds the verified core: the name grammars,
//! the message and value model, the property cache with its change
//! dispatch, the signal-stream filter state machine, and the handler and
//! match-rule bookkeeping. Socket I/O, the executor and the user's async
//! callbacks live outside the core; they drive these state machines and
//! perform the actions the core hands back.

use vstd::prelude::*;

pub mod actions;
pub mod cache;
pub mod message;
pub mod names;
pub mod proxy;
pub mod stream;
pub mod value;

verus! {

/// Error kinds surfaced by the proxy core.
///
/// Transport failures belong to the connection that drives the core and
/// reach the caller unchanged; the core itself only ever raises these.
#[derive(Clone, Copy, PartialEq, Eq, Structural, Debug)]
pub enum Error {
    /// A reply body does not have the expected shape.
    InvalidReply,
    /// The peer answered with an error message; its name and text travel
    /// in the reply the shell holds.
    Method,
    /// The operation needs the property cache, which this proxy was built without.
    Unsupported,
    /// A bus-name, object-path, interface-name or member-name string is not
    /// valid under the D-Bus grammar.
    TypeConversion,
}

} // verus!
