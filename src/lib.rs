//! A minimal BGP-4 speaker: the wire codec for OPEN, KEEPALIVE and UPDATE
//! messages, a framer over a byte buffer, the event queue and the per-peer
//! session state machine.

pub mod bgp_type;
pub mod buffer;
pub mod config;
pub mod connection;
pub mod error;
pub mod event;
pub mod event_queue;
pub mod packets;
pub mod path_attribute;
pub mod peer;
pub mod routing;
pub mod state;
