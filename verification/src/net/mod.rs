//! Networking between federation members.

pub mod backoff;
pub mod channel;
pub mod connection;
pub mod ordered;
pub mod peer_id;
pub mod peers;
