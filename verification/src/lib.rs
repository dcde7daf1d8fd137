//! Mutual-TLS identity for a mesh sidecar: workload names, credentials and
//! their certification against a trust root, and the sniffing of inbound
//! connections for a TLS ClientHello addressed to the local workload.

pub mod name;
pub mod client_hello;
pub mod detect;
pub mod trust;
pub mod config;
pub mod pem;
pub mod creds;
pub mod handshake;
