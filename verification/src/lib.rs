//! Subspace Conduit: the verified core of a small LAN file-transfer tool.
//!
//! The library holds the wire format, the protocol decisions of client and
//! server, the trust-on-first-use host table and the path rules of the
//! server. Sockets, files, TLS sessions and the user interface live in the
//! program around it.
pub mod cli;
pub mod client;
pub mod control;
pub mod digest;
pub mod discovery;
pub mod framing;
pub mod identity;
pub mod paths;
pub mod protocol;
pub mod session;
pub mod sessions;
pub mod text;
pub mod transfer;
pub mod trust;
