//! The BGP messages and their wire codec.

pub mod header;
pub mod keepalive;
pub mod open;
pub mod update;
pub mod message;
