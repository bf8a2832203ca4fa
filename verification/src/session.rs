//! The server's side of a session: what it answers to each message.
//!
//! A session opens with the client's `Hello`; then the client sends commands
//! (list, download, upload) one after another. The program around this
//! module does the reading, writing and file access; the decisions are here.
use vstd::prelude::*;

use crate::digest::{absorbed, sha256_of, spec_hex, transfer_checksum, Sha256State};
use crate::framing::Frame;
use crate::protocol::{HelloResponse, Message, PROTOCOL_VERSION};
use crate::text::{decimal, spec_decimal};

verus! {

/// How the server answers the first message of a session.
#[derive(Debug, Clone, PartialEq, Eq)]
pub enum Opening {
    /// Send this acceptance, then serve commands.
    Accept(Message),
    /// Send this refusal, then end the session.
    Reject(Message),
    /// The first message is not a `Hello`: end the session without a word.
    Ignore,
}

/// The name a server gives itself when it accepts a session.
pub open spec fn spec_server_name() -> Seq<char> {
    "subspace_conduit"@
}

/// The reason given to a client that speaks another protocol version.
pub open spec fn version_reason(version: u32) -> Seq<char> {
    "unsupported protocol version "@ + spec_decimal(version as nat)
}

/// `o` is the server's answer to the first message `first`.
pub open spec fn opening_answer(first: Message, o: Opening) -> bool {
    match first {
        Message::Hello(h) => if h.version == PROTOCOL_VERSION {
            o matches Opening::Accept(Message::HelloResponse(HelloResponse::Accepted { server_name }))
                && server_name@ == spec_server_name()
        } else {
            o matches Opening::Reject(Message::HelloResponse(HelloResponse::Rejected { reason }))
                && reason@ == version_reason(h.version)
        },
        _ => o == Opening::Ignore,
    }
}

/// Answers the first message of a session: a `Hello` of this protocol
/// version is accepted, one of another version refused with the reason.
pub fn answer_opening(first: &Message) -> (o: Opening)
    ensures
        opening_answer(*first, o),
{
    match first {
        Message::Hello(h) => if h.version == PROTOCOL_VERSION {
            Opening::Accept(Message::HelloResponse(HelloResponse::Accepted { server_name: "subspace_conduit".to_owned() }))
        } else {
            let mut reason = "unsupported protocol version ".to_owned();
            let v = decimal(h.version as u64);
            reason.append(v.as_str());
            Opening::Reject(Message::HelloResponse(HelloResponse::Rejected { reason }))
        },
        _ => Opening::Ignore,
    }
}

/// A command of an open session.
#[derive(Debug, Clone, PartialEq, Eq)]
pub enum Command {
    List { path: String },
    Download { path: String, offset: u64 },
    Upload { path: String, size: u64, resume: bool },
    /// Any other message, which the server logs and skips.
    Unexpected(Message),
}

/// `c` is the command that `msg` asks for.
pub open spec fn command_answer(msg: Message, c: Command) -> bool {
    match msg {
        Message::ListDir { path } => c == (Command::List { path }),
        Message::Download { path, offset } => c == (Command::Download { path, offset }),
        Message::Upload { path, size, resume } => c == (Command::Upload { path, size, resume }),
        other => c == Command::Unexpected(other),
    }
}

/// Sorts a message of an open session into the commands the server serves.
pub fn command_of(msg: Message) -> (c: Command)
    ensures
        command_answer(msg, c),
{
    match msg {
        Message::ListDir { path } => Command::List { path },
        Message::Download { path, offset } => Command::Download { path, offset },
        Message::Upload { path, size, resume } => Command::Upload { path, size, resume },
        other => Command::Unexpected(other),
    }
}

/// The reason given when a download would resume past the end of the file.
pub open spec fn offset_reason(offset: u64, size: u64) -> Seq<char> {
    "resume offset "@ + spec_decimal(offset as nat) + " is past end of file (size "@
        + spec_decimal(size as nat) + ")"@
}

/// `m` is the first answer to a download of `size` bytes from `offset`.
pub open spec fn download_answer(offset: u64, size: u64, m: Message) -> bool {
    &&& offset > size ==> (m matches Message::DownloadError { reason } && reason@ == offset_reason(offset, size))
    &&& offset <= size ==> m == (Message::DownloadStart { size })
}

/// The first answer to a download of a file of `size` bytes from `offset`:
/// its size, or a refusal when the offset lies past the end.
pub fn download_opening(offset: u64, size: u64) -> (m: Message)
    ensures
        download_answer(offset, size, m),
{
    if offset > size {
        let mut reason = "resume offset ".to_owned();
        let o = decimal(offset);
        reason.append(o.as_str());
        reason.append(" is past end of file (size ");
        let s = decimal(size);
        reason.append(s.as_str());
        reason.append(")");
        Message::DownloadError { reason }
    } else {
        Message::DownloadStart { size }
    }
}

/// What the server does with a frame received during an upload.
#[derive(Debug, Clone, PartialEq, Eq)]
pub enum UploadStep {
    /// File contents: hash them and append them to the file.
    Write(Vec<u8>),
    /// The client is done; compare its checksum with the computed one.
    Finish { checksum: String },
    /// Any other message ends the upload without an answer.
    Stop(Message),
}

/// The server's side of an upload: the checksum of the stored file's bytes.
pub struct UploadReceiver {
    hasher: Sha256State,
}

impl UploadReceiver {
    /// The bytes of the stored file so far: the kept part, then what arrived.
    pub closed spec fn content(&self) -> Seq<u8> {
        absorbed(self.hasher)
    }

    /// An upload with nothing counted yet.
    pub fn new() -> (r: Self)
        ensures
            r.content() == Seq::<u8>::empty(),
    {
        UploadReceiver { hasher: Sha256State::new() }
    }

    /// Counts a chunk of the part of the file kept from an earlier attempt;
    /// the kept part is read in order, before any frame arrives.
    pub fn keep(&mut self, data: &[u8])
        ensures
            final(self).content() == old(self).content() + data@,
    {
        self.hasher.absorb(data);
    }

    /// Sorts a frame received during the upload, counting file contents.
    pub fn on_frame(&mut self, frame: Frame) -> (s: UploadStep)
        ensures
            match frame {
                Frame::Data(d) => s == UploadStep::Write(d) && final(self).content() == old(self).content() + d@,
                Frame::Control(Message::UploadEnd { checksum }) => s == (UploadStep::Finish { checksum })
                    && final(self).content() == old(self).content(),
                Frame::Control(other) => s == UploadStep::Stop(other) && final(self).content() == old(self).content(),
            },
    {
        match frame {
            Frame::Data(d) => {
                self.hasher.absorb(d.as_slice());
                UploadStep::Write(d)
            },
            Frame::Control(Message::UploadEnd { checksum }) => UploadStep::Finish { checksum },
            Frame::Control(other) => UploadStep::Stop(other),
        }
    }

    /// The answer to the finished upload: the client's checksum is compared
    /// with the hexadecimal SHA-256 of the stored file's bytes.
    pub fn verdict(self, sent: &String) -> (m: Message)
        ensures
            verdict_answer(sent@, spec_hex(sha256_of(self.content())), m),
    {
        let computed = transfer_checksum(self.hasher);
        upload_verdict(sent, &computed)
    }
}

/// The reason given when an upload's checksums disagree.
pub open spec fn mismatch_reason(sent: Seq<char>, computed: Seq<char>) -> Seq<char> {
    "checksum mismatch: client sent "@ + sent + ", server computed "@ + computed
}

/// `m` is the answer to a finished upload whose checksums are `sent` and `computed`.
pub open spec fn verdict_answer(sent: Seq<char>, computed: Seq<char>, m: Message) -> bool {
    &&& sent == computed ==> m == Message::UploadAck
    &&& sent != computed ==> (m matches Message::UploadError { reason } && reason@ == mismatch_reason(sent, computed))
}

/// The answer to a finished upload: an acknowledgement when the client's
/// checksum agrees with the one computed over the stored file, else a refusal.
pub fn upload_verdict(sent: &String, computed: &String) -> (m: Message)
    ensures
        verdict_answer(sent@, computed@, m),
{
    if *computed == *sent {
        Message::UploadAck
    } else {
        let mut reason = "checksum mismatch: client sent ".to_owned();
        reason.append(sent.as_str());
        reason.append(", server computed ");
        reason.append(computed.as_str());
        Message::UploadError { reason }
    }
}

/// The device name a server advertises: the one it was given, else the
/// machine's host name, else `subspace-conduit-server`.
pub fn server_device_name(given: Option<String>, host_name: Option<String>) -> (n: String)
    ensures
        match (given, host_name) {
            (Some(g), _) => n == g,
            (None, Some(h)) => n == h,
            (None, None) => n@ == "subspace-conduit-server"@,
        },
{
    match given {
        Some(g) => g,
        None => match host_name {
            Some(h) => h,
            None => "subspace-conduit-server".to_owned(),
        },
    }
}

/// Where a session stands.
#[derive(Debug, Clone, Copy, PartialEq, Eq)]
pub enum Phase {
    /// Waiting for the client's `Hello`.
    Opening,
    /// The `Hello` was accepted: commands are served.
    Serving,
    /// The session is over.
    Closed,
}

/// Whether `m` is a `Hello` that the server accepts.
pub open spec fn accepted_hello(m: Message) -> bool {
    m matches Message::Hello(h) && h.version == PROTOCOL_VERSION
}

/// The phase after message `m` arrives in phase `p`.
pub open spec fn next_phase(p: Phase, m: Message) -> Phase {
    match p {
        Phase::Opening => if accepted_hello(m) { Phase::Serving } else { Phase::Closed },
        Phase::Serving => Phase::Serving,
        Phase::Closed => Phase::Closed,
    }
}

/// The phase after the messages `ms`, from the start of a session.
pub open spec fn phase_after(ms: Seq<Message>) -> Phase
    decreases ms.len(),
{
    if ms.len() == 0 {
        Phase::Opening
    } else {
        next_phase(phase_after(ms.drop_last()), ms.last())
    }
}

/// What the server does with a message of a session.
#[derive(Debug, Clone, PartialEq, Eq)]
pub enum SessionAction {
    /// Send this answer to the `Hello`, then go on serving.
    Reply(Message),
    /// Send this refusal, then end the session.
    ReplyAndClose(Message),
    /// End the session without a word; the message is the one that ended it.
    Close(Message),
    /// Serve this command.
    Serve(Command),
}

/// The server's side of one session.
#[derive(Debug, Clone, Copy, PartialEq, Eq)]
pub struct Session {
    pub phase: Phase,
}

impl Session {
    /// A session that waits for its `Hello`.
    pub fn new() -> (s: Self)
        ensures
            s.phase == Phase::Opening,
    {
        Session { phase: Phase::Opening }
    }

    /// Handles the next message of the session.
    pub fn on_message(&mut self, msg: Message) -> (a: SessionAction)
        ensures
            final(self).phase == next_phase(old(self).phase, msg),
            a is Serve <==> old(self).phase == Phase::Serving,
            old(self).phase == Phase::Opening ==> match a {
                SessionAction::Reply(r) => opening_answer(msg, Opening::Accept(r)),
                SessionAction::ReplyAndClose(r) => opening_answer(msg, Opening::Reject(r)),
                SessionAction::Close(m) => m == msg && opening_answer(msg, Opening::Ignore),
                SessionAction::Serve(_) => false,
            },
            old(self).phase == Phase::Serving ==> (a matches SessionAction::Serve(c) && command_answer(msg, c)),
            old(self).phase == Phase::Closed ==> a == SessionAction::Close(msg),
    {
        match self.phase {
            Phase::Opening => {
                let o = answer_opening(&msg);
                match o {
                    Opening::Accept(r) => {
                        self.phase = Phase::Serving;
                        SessionAction::Reply(r)
                    },
                    Opening::Reject(r) => {
                        self.phase = Phase::Closed;
                        SessionAction::ReplyAndClose(r)
                    },
                    Opening::Ignore => {
                        self.phase = Phase::Closed;
                        SessionAction::Close(msg)
                    },
                }
            },
            Phase::Serving => SessionAction::Serve(command_of(msg)),
            Phase::Closed => SessionAction::Close(msg),
        }
    }
}

/// A session is served only once it was opened by an accepted `Hello`:
/// whatever messages arrive, none is served as a command unless the first
/// one was a `Hello` of this protocol version.
pub proof fn law_serving_needs_accepted_hello(ms: Seq<Message>)
    ensures
        phase_after(ms) == Phase::Serving ==> ms.len() > 0 && accepted_hello(ms[0]),
    decreases ms.len(),
{
    if ms.len() > 0 {
        law_serving_needs_accepted_hello(ms.drop_last());
        if ms.len() == 1 {
            assert(ms.drop_last().len() == 0);
            assert(ms.last() == ms[0]);
        } else {
            assert(ms.drop_last()[0] == ms[0]);
        }
    }
}

/// Once opened by an accepted `Hello`, a session stays open and serves every
/// later message: after any messages whose first one is an accepted
/// `Hello`, the session is serving; and it is serving only then.
pub proof fn law_opened_session_keeps_serving(ms: Seq<Message>)
    ensures
        phase_after(ms) == Phase::Serving <==> (ms.len() > 0 && accepted_hello(ms[0])),
    decreases ms.len(),
{
    law_serving_needs_accepted_hello(ms);
    if ms.len() > 1 {
        law_opened_session_keeps_serving(ms.drop_last());
        assert(ms.drop_last()[0] == ms[0]);
    } else if ms.len() == 1 {
        assert(ms.drop_last().len() == 0);
        assert(phase_after(ms.drop_last()) == Phase::Opening);
        assert(ms.last() == ms[0]);
    }
}

/// In a session opened by an accepted `Hello`, the next message, whatever it
/// is, is served as the command it reads as, and the session goes on serving.
pub proof fn law_every_command_after_hello_is_served(ms: Seq<Message>, next: Message)
    requires
        ms.len() > 0,
        accepted_hello(ms[0]),
    ensures
        phase_after(ms) == Phase::Serving,
        phase_after(ms.push(next)) == Phase::Serving,
{
    law_opened_session_keeps_serving(ms);
    law_opened_session_keeps_serving(ms.push(next));
    assert(ms.push(next)[0] == ms[0]);
}

} // verus!
