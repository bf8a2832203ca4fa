//! The messages that client and server exchange.
use vstd::prelude::*;

verus! {

/// The protocol version this library speaks; a server accepts only this one.
pub const PROTOCOL_VERSION: u32 = 1;

/// The first message of a session, sent by the client.
#[derive(Debug, Clone, PartialEq, Eq)]
pub struct Hello {
    pub version: u32,
    pub device_name: String,
}

/// The server's answer to a `Hello`.
#[derive(Debug, Clone, PartialEq, Eq)]
pub enum HelloResponse {
    Accepted { server_name: String },
    Rejected { reason: String },
}

/// One entry of a directory listing.
#[derive(Debug, Clone, PartialEq, Eq)]
pub struct FileEntry {
    pub name: String,
    pub size: u64,
    pub is_dir: bool,
}

/// Every control message of the protocol.
#[derive(Debug, Clone, PartialEq, Eq)]
pub enum Message {
    Hello(Hello),
    HelloResponse(HelloResponse),
    Ping,
    Pong,
    ListDir { path: String },
    DirListing { entries: Vec<FileEntry> },
    ListError { reason: String },
    Download { path: String, offset: u64 },
    DownloadStart { size: u64 },
    DownloadEnd { checksum: String },
    DownloadError { reason: String },
    Upload { path: String, size: u64, resume: bool },
    UploadReady { offset: u64 },
    UploadEnd { checksum: String },
    UploadAck,
    UploadError { reason: String },
}

} // verus!
