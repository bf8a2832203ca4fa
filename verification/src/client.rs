//! The client's side of a session: what it sends and how it reads the
//! server's answers.
use vstd::prelude::*;

use crate::digest::{absorbed, sha256_of, spec_hex, transfer_checksum, Sha256State};
use crate::framing::Frame;
use crate::protocol::{FileEntry, Hello, HelloResponse, Message, PROTOCOL_VERSION};
use crate::transfer::{joined, law_resume_sends_the_rest, sent_stream};
use crate::session::{
    download_answer, mismatch_reason, offset_reason, opening_answer, spec_server_name, verdict_answer,
    version_reason, Opening,
};

verus! {

/// Why a client operation failed.
#[derive(Debug, Clone, PartialEq, Eq)]
pub enum ClientError {
    /// The server refused the session.
    HandshakeRejected { reason: String },
    /// The server answered with a message that does not fit the request.
    UnexpectedResponse(Message),
    /// The server could not list the directory.
    ListFailed { reason: String },
    /// The server refused the download.
    DownloadFailed { reason: String },
    /// The server refused the upload.
    UploadFailed { reason: String },
    /// The server holds more of the file than the client has, so an upload cannot resume.
    RemoteLarger { offset: u64, size: u64 },
    /// A control message other than the end arrived in the middle of a download.
    UnexpectedMidDownload(Message),
    /// The downloaded bytes do not hash to the checksum the server sent.
    ChecksumMismatch { sent: String, computed: String },
}

/// The device name a client introduces itself with: the machine's host
/// name, else `unknown-device`.
pub fn client_device_name(host_name: Option<String>) -> (n: String)
    ensures
        match host_name {
            Some(h) => n == h,
            None => n@ == "unknown-device"@,
        },
{
    match host_name {
        Some(h) => h,
        None => "unknown-device".to_owned(),
    }
}

/// The `Hello` that opens a session from the device `device_name`.
pub fn client_hello(device_name: String) -> (m: Message)
    ensures
        m == Message::Hello(Hello { version: PROTOCOL_VERSION, device_name }),
{
    Message::Hello(Hello { version: PROTOCOL_VERSION, device_name })
}

/// `r` is how the client reads `msg` as the answer to its `Hello`.
pub open spec fn hello_reading(msg: Message, r: Result<String, ClientError>) -> bool {
    match msg {
        Message::HelloResponse(HelloResponse::Accepted { server_name }) => r == Ok::<_, ClientError>(server_name),
        Message::HelloResponse(HelloResponse::Rejected { reason }) => r == Err::<String, _>(ClientError::HandshakeRejected { reason }),
        other => r == Err::<String, _>(ClientError::UnexpectedResponse(other)),
    }
}

/// Reads the answer to the `Hello`: the server's name when it accepts.
pub fn check_hello_response(msg: Message) -> (r: Result<String, ClientError>)
    ensures
        hello_reading(msg, r),
{
    match msg {
        Message::HelloResponse(HelloResponse::Accepted { server_name }) => Ok(server_name),
        Message::HelloResponse(HelloResponse::Rejected { reason }) => Err(ClientError::HandshakeRejected { reason }),
        other => Err(ClientError::UnexpectedResponse(other)),
    }
}

/// Reads the answer to a listing request.
pub fn check_listing(msg: Message) -> (r: Result<Vec<FileEntry>, ClientError>)
    ensures
        match msg {
            Message::DirListing { entries } => r == Ok::<_, ClientError>(entries),
            Message::ListError { reason } => r == Err::<Vec<FileEntry>, _>(ClientError::ListFailed { reason }),
            other => r == Err::<Vec<FileEntry>, _>(ClientError::UnexpectedResponse(other)),
        },
{
    match msg {
        Message::DirListing { entries } => Ok(entries),
        Message::ListError { reason } => Err(ClientError::ListFailed { reason }),
        other => Err(ClientError::UnexpectedResponse(other)),
    }
}

/// `r` is how the client reads `msg` as the answer to a download request.
pub open spec fn download_start_reading(msg: Message, r: Result<u64, ClientError>) -> bool {
    match msg {
        Message::DownloadStart { size } => r == Ok::<_, ClientError>(size),
        Message::DownloadError { reason } => r == Err::<u64, _>(ClientError::DownloadFailed { reason }),
        other => r == Err::<u64, _>(ClientError::UnexpectedResponse(other)),
    }
}

/// Reads the answer to a download request: the size of the whole file.
pub fn check_download_start(msg: Message) -> (r: Result<u64, ClientError>)
    ensures
        download_start_reading(msg, r),
{
    match msg {
        Message::DownloadStart { size } => Ok(size),
        Message::DownloadError { reason } => Err(ClientError::DownloadFailed { reason }),
        other => Err(ClientError::UnexpectedResponse(other)),
    }
}

/// `r` is how the client reads `msg` as the answer to its request to upload
/// a file of `size` bytes.
pub open spec fn upload_ready_reading(msg: Message, size: u64, r: Result<u64, ClientError>) -> bool {
    match msg {
        Message::UploadReady { offset } => if offset > size {
            r == Err::<u64, _>(ClientError::RemoteLarger { offset, size })
        } else {
            r == Ok::<_, ClientError>(offset)
        },
        other => r == Err::<u64, _>(ClientError::UnexpectedResponse(other)),
    }
}

/// Reads the answer to an upload request of a file of `size` bytes: the
/// offset to send from, which may not lie past the end of the file.
pub fn check_upload_ready(msg: Message, size: u64) -> (r: Result<u64, ClientError>)
    ensures
        upload_ready_reading(msg, size, r),
{
    match msg {
        Message::UploadReady { offset } => if offset > size {
            Err(ClientError::RemoteLarger { offset, size })
        } else {
            Ok(offset)
        },
        other => Err(ClientError::UnexpectedResponse(other)),
    }
}

/// `r` is how the client reads `msg` as the verdict on its upload.
pub open spec fn upload_reply_reading(msg: Message, r: Result<(), ClientError>) -> bool {
    match msg {
        Message::UploadAck => r is Ok,
        Message::UploadError { reason } => r == Err::<(), _>(ClientError::UploadFailed { reason }),
        other => r == Err::<(), _>(ClientError::UnexpectedResponse(other)),
    }
}

/// Reads the server's verdict on a finished upload.
pub fn check_upload_reply(msg: Message) -> (r: Result<(), ClientError>)
    ensures
        upload_reply_reading(msg, r),
{
    match msg {
        Message::UploadAck => Ok(()),
        Message::UploadError { reason } => Err(ClientError::UploadFailed { reason }),
        other => Err(ClientError::UnexpectedResponse(other)),
    }
}

/// What the client does with a frame received during a download.
#[derive(Debug, Clone, PartialEq, Eq)]
pub enum DownloadStep {
    /// File contents: hash them, append them, and report progress.
    Write(Vec<u8>),
    /// The server is done; compare its checksum with the computed one.
    Finish { checksum: String },
    /// The download fails.
    Fail(ClientError),
}

/// The client's count of a download: the file's size, how many of its bytes
/// are on disk (counting those kept from an earlier attempt), and the
/// checksum of those bytes.
pub struct DownloadProgress {
    pub size: u64,
    pub received: u64,
    /// The checksum computation over the local file's bytes.
    pub hasher: Sha256State,
}

impl DownloadProgress {
    /// The bytes of the local file so far: the kept part, then what arrived.
    pub open spec fn content(&self) -> Seq<u8> {
        absorbed(self.hasher)
    }

    /// A download of a file of `size` bytes that resumes with `offset` bytes on disk.
    pub fn new(offset: u64, size: u64) -> (p: Self)
        ensures
            p.size == size,
            p.received == offset,
            p.content() == Seq::<u8>::empty(),
    {
        DownloadProgress { size, received: offset, hasher: Sha256State::new() }
    }

    /// Counts a chunk of the part kept on disk from an earlier attempt into
    /// the checksum; the kept part is read in order, before any frame arrives.
    pub fn keep(&mut self, data: &[u8])
        ensures
            final(self).size == old(self).size,
            final(self).received == old(self).received,
            final(self).content() == old(self).content() + data@,
    {
        self.hasher.absorb(data);
    }

    /// Sorts a frame received during the download, counting data bytes.
    pub fn on_frame(&mut self, frame: Frame) -> (s: DownloadStep)
        requires
            frame matches Frame::Data(d) ==> old(self).received + d@.len() <= u64::MAX,
        ensures
            final(self).size == old(self).size,
            match frame {
                Frame::Data(d) => s == DownloadStep::Write(d)
                    && final(self).received == old(self).received + d@.len()
                    && final(self).content() == old(self).content() + d@,
                Frame::Control(Message::DownloadEnd { checksum }) => s == (DownloadStep::Finish { checksum })
                    && final(self).received == old(self).received
                    && final(self).content() == old(self).content(),
                Frame::Control(other) => s == DownloadStep::Fail(ClientError::UnexpectedMidDownload(other))
                    && final(self).received == old(self).received
                    && final(self).content() == old(self).content(),
            },
    {
        match frame {
            Frame::Data(d) => {
                self.received = self.received + d.len() as u64;
                self.hasher.absorb(d.as_slice());
                DownloadStep::Write(d)
            },
            Frame::Control(Message::DownloadEnd { checksum }) => DownloadStep::Finish { checksum },
            Frame::Control(other) => DownloadStep::Fail(ClientError::UnexpectedMidDownload(other)),
        }
    }

    /// The end of the download: it succeeds exactly when the server's
    /// checksum is the hexadecimal SHA-256 of the local file's bytes.
    pub fn finish(self, sent: &String) -> (r: Result<(), ClientError>)
        ensures
            download_end_reading(self.content(), sent@, r),
    {
        let computed = transfer_checksum(self.hasher);
        finish_download(sent, &computed)
    }
}

/// `r` is how a download ends whose local file holds `content` and whose
/// server sent the checksum `sent`: it succeeds exactly when `sent` is the
/// hexadecimal SHA-256 of `content`.
pub open spec fn download_end_reading(content: Seq<u8>, sent: Seq<char>, r: Result<(), ClientError>) -> bool {
    &&& sent == spec_hex(sha256_of(content)) ==> r is Ok
    &&& sent != spec_hex(sha256_of(content)) ==> (r matches Err(ClientError::ChecksumMismatch { sent: s, computed: c })
        && s@ == sent && c@ == spec_hex(sha256_of(content)))
}

/// The end of a download: it succeeds when the server's checksum agrees with
/// the one computed over the whole local file.
pub fn finish_download(sent: &String, computed: &String) -> (r: Result<(), ClientError>)
    ensures
        sent@ == computed@ ==> r is Ok,
        sent@ != computed@ ==> (r matches Err(ClientError::ChecksumMismatch { sent: s, computed: c })
            && s@ == sent@ && c@ == computed@),
{
    if *computed == *sent {
        Ok(())
    } else {
        Err(ClientError::ChecksumMismatch { sent: sent.clone(), computed: computed.clone() })
    }
}

// -------- laws of the protocol: what each side makes of the other's answer --------

/// A client that speaks this protocol version is let in, and learns the
/// server's name.
pub proof fn law_handshake_accepted(device_name: String, o: Opening)
    requires
        opening_answer(Message::Hello(Hello { version: PROTOCOL_VERSION, device_name }), o),
    ensures
        o matches Opening::Accept(reply) && forall|r: Result<String, ClientError>| hello_reading(reply, r)
            ==> (r matches Ok(name) && name@ == spec_server_name()),
{
}

/// A client that speaks another version is refused, and reads the reason.
pub proof fn law_handshake_refused(version: u32, device_name: String, o: Opening)
    requires
        version != PROTOCOL_VERSION,
        opening_answer(Message::Hello(Hello { version, device_name }), o),
    ensures
        o matches Opening::Reject(reply) && forall|r: Result<String, ClientError>| hello_reading(reply, r)
            ==> (r matches Err(ClientError::HandshakeRejected { reason }) && reason@ == version_reason(version)),
{
}

/// A download is started exactly when its offset lies within the file; the
/// client then learns the size, else the server's reason.
pub proof fn law_download_opening(offset: u64, size: u64, m: Message, r: Result<u64, ClientError>)
    requires
        download_answer(offset, size, m),
        download_start_reading(m, r),
    ensures
        offset <= size ==> r == Ok::<u64, ClientError>(size),
        offset > size ==> (r matches Err(ClientError::DownloadFailed { reason }) && reason@ == offset_reason(offset, size)),
{
}

/// An upload succeeds exactly when the client's checksum agrees with the
/// server's; otherwise the client reads both checksums in the reason.
pub proof fn law_upload_verdict(sent: Seq<char>, computed: Seq<char>, m: Message, r: Result<(), ClientError>)
    requires
        verdict_answer(sent, computed, m),
        upload_reply_reading(m, r),
    ensures
        r is Ok <==> sent == computed,
        sent != computed ==> (r matches Err(ClientError::UploadFailed { reason }) && reason@ == mismatch_reason(sent, computed)),
{
}

/// The part of a file that a transfer keeps from an earlier attempt: the
/// partial copy when resuming and one exists, otherwise nothing. Its length
/// is the offset that `resume_offset` gives.
pub open spec fn kept_part(resume: bool, existing: Option<Seq<u8>>) -> Seq<u8> {
    if resume && existing is Some {
        existing->0
    } else {
        Seq::empty()
    }
}

/// A download from an honest server ends well: the server's file is the
/// `chunks` it reads, laid end to end; the local partial copy (if resuming)
/// is a prefix of it. The server starts the download with the file's size, sends every
/// byte from the resume offset on and ends with the checksum of the whole
/// file. Then the client reads the size, ends with the server's file on
/// disk, and the download succeeds.
pub proof fn law_download_round_trip(
    chunks: Seq<Seq<u8>>,
    resume: bool,
    existing: Option<Seq<u8>>,
    start: Message,
    start_read: Result<u64, ClientError>,
    end: Result<(), ClientError>,
)
    requires
        joined(chunks).len() <= u64::MAX,
        kept_part(resume, existing).is_prefix_of(joined(chunks)),
        download_answer(kept_part(resume, existing).len() as u64, joined(chunks).len() as u64, start),
        download_start_reading(start, start_read),
        download_end_reading(
            kept_part(resume, existing) + sent_stream(chunks, kept_part(resume, existing).len() as int),
            spec_hex(sha256_of(joined(chunks))),
            end,
        ),
    ensures
        start_read == Ok::<u64, ClientError>(joined(chunks).len() as u64),
        kept_part(resume, existing) + sent_stream(chunks, kept_part(resume, existing).len() as int) == joined(chunks),
        end is Ok,
{
    let kept = kept_part(resume, existing);
    law_resume_sends_the_rest(chunks, kept.len() as int);
    assert(kept + joined(chunks).skip(kept.len() as int) =~= joined(chunks));
}

/// An upload to an honest server ends well: the local file is the `chunks`
/// the client reads, laid end to end; the server's partial copy (if
/// resuming) is a prefix of it. The server answers with the length of its copy, the client sends
/// every byte from there on and ends with the checksum of the whole file,
/// and the server compares it with the checksum of what it stored. Then the
/// client resumes where the server's copy ends, the server ends with the
/// local file, acknowledges it, and the upload succeeds.
pub proof fn law_upload_round_trip(
    chunks: Seq<Seq<u8>>,
    resume: bool,
    stored: Option<Seq<u8>>,
    ready_read: Result<u64, ClientError>,
    verdict: Message,
    reply: Result<(), ClientError>,
)
    requires
        joined(chunks).len() <= u64::MAX,
        kept_part(resume, stored).is_prefix_of(joined(chunks)),
        upload_ready_reading(
            Message::UploadReady { offset: kept_part(resume, stored).len() as u64 },
            joined(chunks).len() as u64,
            ready_read,
        ),
        verdict_answer(
            spec_hex(sha256_of(joined(chunks))),
            spec_hex(sha256_of(kept_part(resume, stored) + sent_stream(chunks, kept_part(resume, stored).len() as int))),
            verdict,
        ),
        upload_reply_reading(verdict, reply),
    ensures
        ready_read == Ok::<u64, ClientError>(kept_part(resume, stored).len() as u64),
        kept_part(resume, stored) + sent_stream(chunks, kept_part(resume, stored).len() as int) == joined(chunks),
        verdict == Message::UploadAck,
        reply is Ok,
{
    let kept = kept_part(resume, stored);
    law_resume_sends_the_rest(chunks, kept.len() as int);
    assert(kept + joined(chunks).skip(kept.len() as int) =~= joined(chunks));
}

/// A download is reported verified exactly when the server's checksum is
/// the hexadecimal SHA-256 of the bytes on disk; otherwise it fails with a
/// mismatch naming both checksums.
pub proof fn law_download_verified_iff_checksums_agree(content: Seq<u8>, sent: Seq<char>, r: Result<(), ClientError>)
    requires
        download_end_reading(content, sent, r),
    ensures
        r is Ok <==> sent == spec_hex(sha256_of(content)),
        r is Err ==> (r matches Err(ClientError::ChecksumMismatch { sent: s, computed: c })
            && s@ == sent && c@ == spec_hex(sha256_of(content))),
{
}

/// Of two endings of downloads with the same bytes on disk but different
/// checksums from the server, at most one is a success.
pub proof fn law_at_most_one_checksum_verifies(
    content: Seq<u8>,
    sent1: Seq<char>,
    r1: Result<(), ClientError>,
    sent2: Seq<char>,
    r2: Result<(), ClientError>,
)
    requires
        download_end_reading(content, sent1, r1),
        download_end_reading(content, sent2, r2),
        sent1 != sent2,
    ensures
        !(r1 is Ok && r2 is Ok),
{
}

} // verus!
