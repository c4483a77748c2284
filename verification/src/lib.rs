//! Frame relay and session multiplexing for a user-space virtual Ethernet
//! segment: frames, transport sessions, the relay's session registry, the
//! learning-bridge forwarding rule and the client-side bridge.

pub mod frame;
pub mod session;
pub mod registry;
pub mod relay;
pub mod backoff;
pub mod bridge;
