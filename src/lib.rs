//! Source-address selection for a multi-protocol forward proxy: the
//! username extension parser, the address allocator, the outbound bind
//! policy and the proxy authenticator.
pub mod addr;
pub mod auth;
pub mod config;
pub mod connect;
pub mod extension;
pub mod hashing;
pub mod http;
pub mod random;
pub mod socks;
pub mod text;
pub mod ttl;
