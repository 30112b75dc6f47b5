//! A DHCPv6 client core for a user-space IPv6 network stack.
//!
//! The crate provides the two tightly coupled halves of such a client:
//!
//! * a wire codec for the DHCPv6 message format (fixed header plus nested
//!   TLV options), in [`wire`], and
//! * a four-state client engine that combines IPv6 router discovery with
//!   the stateful DHCPv6 exchange, in [`socket`].
//!
//! The engine is a passive object driven by an external scheduler: it is
//! fed inbound packets, asked when it next wants to run (`poll_at`), and
//! told to produce outbound packets (`dispatch`).  Time and randomness are
//! supplied by the caller through a [`socket::Context`] snapshot, so the
//! engine itself is deterministic and fully verified.

use vstd::prelude::*;

pub mod bytes;
pub mod ip;
pub mod socket;
pub mod socket_set;
pub mod time;
pub mod waker;
pub mod wire;

verus! {

/// Error returned by the wire codec when a buffer is too short or a field
/// does not fit its on-wire encoding.
#[derive(Clone, Copy, Debug, PartialEq, Eq, Structural)]
pub struct Error;

} // verus!
