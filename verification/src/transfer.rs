//! Resumable transfers: where a transfer starts, and which part of each chunk
//! read from the file is sent.
//!
//! The sender reads the whole file in chunks (hashing all of it) but sends
//! only the bytes from the resume offset on.
use vstd::prelude::*;

use crate::digest::{absorbed, sha256_of, spec_hex, transfer_checksum, Sha256State};

verus! {

/// The size of the chunks in which files are read.
pub const CHUNK_SIZE: usize = 65536;

/// The offset a transfer resumes from: the length of the partial copy when
/// resuming and one exists, otherwise the start.
pub fn resume_offset(resume: bool, existing_len: Option<u64>) -> (o: u64)
    ensures
        o == (if resume && existing_len is Some { existing_len->0 } else { 0 }),
{
    if resume {
        match existing_len {
            Some(n) => n,
            None => 0,
        }
    } else {
        0
    }
}

/// Where the sent part of a chunk of `n` bytes at file position `position`
/// starts, given the resume offset; `None` where the whole chunk lies before it.
pub open spec fn send_start(position: int, n: int, offset: int) -> Option<int> {
    if position + n > offset {
        Some(if position < offset { offset - position } else { 0 })
    } else {
        None
    }
}

/// The part of a chunk that is sent.
pub open spec fn chunk_sent(chunk: Seq<u8>, position: int, offset: int) -> Seq<u8> {
    match send_start(position, chunk.len() as int, offset) {
        Some(k) => chunk.skip(k),
        None => seq![],
    }
}

/// For a chunk of `n` bytes read at `position`: the index in the chunk from
/// which it is sent, or `None` if none of it is.
pub fn send_range(position: u64, n: usize, offset: u64) -> (r: Option<usize>)
    requires
        position + n <= u64::MAX,
    ensures
        r == (match send_start(position as int, n as int, offset as int) {
            Some(k) => Some(k as usize),
            None => None::<usize>,
        }),
        r matches Some(k) ==> k <= n && (n > 0 ==> k < n),
{
    let chunk_end = position + n as u64;
    if chunk_end > offset {
        if position < offset {
            Some((offset - position) as usize)
        } else {
            Some(0)
        }
    } else {
        None
    }
}

/// The sender's place in the file while it reads it chunk by chunk, with the
/// checksum of everything read so far.
pub struct ChunkCursor {
    /// The resume offset: bytes before it are read (and hashed) but not sent.
    pub offset: u64,
    /// How many bytes of the file have been read.
    pub position: u64,
    /// The checksum computation over the bytes read.
    pub hasher: Sha256State,
}

impl ChunkCursor {
    /// The bytes of the file read so far, in order.
    pub open spec fn read_so_far(&self) -> Seq<u8> {
        absorbed(self.hasher)
    }

    /// A cursor at the start of the file, for a transfer resumed at `offset`.
    pub fn new(offset: u64) -> (c: Self)
        ensures
            c.offset == offset,
            c.position == 0,
            c.read_so_far() == Seq::<u8>::empty(),
    {
        ChunkCursor { offset, position: 0, hasher: Sha256State::new() }
    }

    /// Moves past a chunk just read, and says from which index in it the
    /// chunk is sent, if at all.
    pub fn advance(&mut self, chunk: &[u8]) -> (r: Option<usize>)
        requires
            old(self).position + chunk@.len() <= u64::MAX,
        ensures
            final(self).offset == old(self).offset,
            final(self).position == old(self).position + chunk@.len(),
            final(self).read_so_far() == old(self).read_so_far() + chunk@,
            r == (match send_start(old(self).position as int, chunk@.len() as int, old(self).offset as int) {
                Some(k) => Some(k as usize),
                None => None::<usize>,
            }),
    {
        let r = send_range(self.position, chunk.len(), self.offset);
        self.position = self.position + chunk.len() as u64;
        self.hasher.absorb(chunk);
        r
    }

    /// The checksum that ends the transfer: the hexadecimal SHA-256 of every
    /// byte read, those before the resume offset included.
    pub fn checksum(self) -> (c: String)
        ensures
            c@ == spec_hex(sha256_of(self.read_so_far())),
    {
        transfer_checksum(self.hasher)
    }
}

// -------- the stream as a whole --------

/// The chunks laid end to end.
pub open spec fn joined(chunks: Seq<Seq<u8>>) -> Seq<u8>
    decreases chunks.len(),
{
    if chunks.len() == 0 {
        seq![]
    } else {
        joined(chunks.drop_last()) + chunks.last()
    }
}

/// Everything sent when the file is read in `chunks` from its start.
pub open spec fn sent_stream(chunks: Seq<Seq<u8>>, offset: int) -> Seq<u8>
    decreases chunks.len(),
{
    if chunks.len() == 0 {
        seq![]
    } else {
        sent_stream(chunks.drop_last(), offset)
            + chunk_sent(chunks.last(), joined(chunks.drop_last()).len() as int, offset)
    }
}

/// However the file is cut into chunks, what is sent is the file from the
/// resume offset on (nothing, if the offset lies past its end).
pub proof fn law_resume_sends_the_rest(chunks: Seq<Seq<u8>>, offset: int)
    requires
        0 <= offset,
    ensures
        offset <= joined(chunks).len() ==> sent_stream(chunks, offset) == joined(chunks).skip(offset),
        offset > joined(chunks).len() ==> sent_stream(chunks, offset) == Seq::<u8>::empty(),
    decreases chunks.len(),
{
    if chunks.len() > 0 {
        let front = chunks.drop_last();
        let c = chunks.last();
        law_resume_sends_the_rest(front, offset);
        let p = joined(front).len() as int;
        assert(joined(chunks) == joined(front) + c);
        if p + c.len() > offset {
            if p < offset {
                assert(sent_stream(front, offset) =~= Seq::<u8>::empty());
                assert(joined(chunks).skip(offset) =~= c.skip(offset - p));
                assert(sent_stream(chunks, offset) =~= c.skip(offset - p));
            } else {
                assert(joined(chunks).skip(offset) =~= joined(front).skip(offset) + c);
                assert(c.skip(0) =~= c);
            }
        } else {
            assert(sent_stream(chunks, offset) =~= sent_stream(front, offset));
            if offset <= joined(chunks).len() {
                assert(offset == p + c.len());
                assert(joined(chunks).skip(offset) =~= Seq::<u8>::empty());
                if offset <= p {
                    assert(joined(front).skip(offset) =~= Seq::<u8>::empty());
                }
            }
        }
    }
}

/// With no resume offset, every byte of the file is sent.
pub proof fn law_fresh_transfer_sends_all(chunks: Seq<Seq<u8>>)
    ensures
        sent_stream(chunks, 0) == joined(chunks),
{
    law_resume_sends_the_rest(chunks, 0);
    assert(joined(chunks).skip(0) =~= joined(chunks));
}

/// A download resumed at `offset` that receives everything the server sends
/// ends with the whole file on disk: the kept bytes plus the sent ones make
/// up the file's size.
pub proof fn law_resumed_download_is_complete(chunks: Seq<Seq<u8>>, offset: int)
    requires
        0 <= offset <= joined(chunks).len(),
    ensures
        offset + sent_stream(chunks, offset).len() == joined(chunks).len(),
{
    law_resume_sends_the_rest(chunks, offset);
}

} // verus!
