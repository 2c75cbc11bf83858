//! Send side of a reliable-delivery transport layered on an unreliable,
//! unordered datagram service.
//!
//! The library holds the protocol logic itself: the wire codec for data and
//! acknowledgment segments, the Reno-style congestion controller, the
//! retransmission-timeout estimator, and the transmission engine that drives
//! packetization, the unacknowledged-segment table, and the retransmission
//! and recovery decisions.  Every step of the engine is a plain function from
//! state and event to new state and action, so the datagram I/O around it can
//! live in a thin, unverified front end.

pub mod congestion;
pub mod engine;
pub mod filter;
pub mod rtt;
pub mod wire;
