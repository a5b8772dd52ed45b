//! A DNS-over-HTTPS forwarder: DNS framing, the response cache, the shared
//! upstream session and the per-query request engine.
pub mod cache;
pub mod dns;
pub mod engine;
pub mod response;
pub mod session;
