//! Bridge core for an asynchronous DNS stub-resolver driven by a foreign,
//! readiness-based host event loop.
//!
//! The crate holds the decision logic of the bridge: the socket-address
//! codec, hostname validation, the result-slot write plan, the poll
//! classification of host send/recv attempts, the wake-token and action-slot
//! disciplines, the current-session bracket, and the executor drain. The
//! host-facing glue (FFI entry points, the DNS engine's capability traits)
//! lives outside the verified library and calls into it.

pub mod addr;
pub mod caps;
pub mod config;
pub mod executor;
pub mod hosts;
pub mod lookup;
pub mod once;
pub mod session;
pub mod text;
pub mod transport;
