//! A distributed actor messaging core.
//!
//! A process registers named, stateful message handlers ("actors"); any
//! other process on the network discovers a handler by name through a
//! replicated discovery registry and performs typed request/reply calls
//! against it over an abstract transport.  The modules here hold the
//! verified logic of that core: peer and actor identity, the wire codec
//! for message envelopes, the discovery registry with its propagation
//! and expiry model, the bounded lookup retry policy, the pending-request
//! table with exactly-once resolution, the per-actor mailbox runtime,
//! and the transport-side address book.  The surrounding process (dialing,
//! listening, timers, the event loop itself) stays outside the library
//! and hands plain values in and out.

pub mod envelope;
pub mod ids;
pub mod lookup;
pub mod pending;
pub mod ping;
pub mod protocol;
pub mod registry;
pub mod runtime;
pub mod ticks;
pub mod transport;
