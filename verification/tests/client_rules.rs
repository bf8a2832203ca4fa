use subspace_conduit::client::{
    check_download_start, check_hello_response, check_listing, check_upload_ready, check_upload_reply,
    client_device_name, client_hello, finish_download, ClientError, DownloadProgress, DownloadStep,
};
use subspace_conduit::framing::Frame;
use subspace_conduit::protocol::{FileEntry, Hello, HelloResponse, Message, PROTOCOL_VERSION};
use subspace_conduit::session::{answer_opening, download_opening, upload_verdict, Opening, UploadReceiver, UploadStep};
use subspace_conduit::transfer::{resume_offset, send_range, ChunkCursor, CHUNK_SIZE};

#[test]
fn hello_carries_this_version() {
    assert_eq!(
        client_hello("pc".into()),
        Message::Hello(Hello { version: PROTOCOL_VERSION, device_name: "pc".into() })
    );
    assert_eq!(client_device_name(None), "unknown-device");
    assert_eq!(client_device_name(Some("pc".into())), "pc");
}

#[test]
fn handshake_end_to_end() {
    match answer_opening(&client_hello("pc".into())) {
        Opening::Accept(reply) => assert_eq!(check_hello_response(reply), Ok("subspace_conduit".to_string())),
        other => panic!("not accepted: {other:?}"),
    }
}

#[test]
fn hello_response_cases() {
    assert_eq!(
        check_hello_response(Message::HelloResponse(HelloResponse::Rejected { reason: "r".into() })),
        Err(ClientError::HandshakeRejected { reason: "r".into() })
    );
    assert_eq!(check_hello_response(Message::Pong), Err(ClientError::UnexpectedResponse(Message::Pong)));
}

#[test]
fn listing_cases() {
    let e = FileEntry { name: "a".into(), size: 1, is_dir: false };
    assert_eq!(check_listing(Message::DirListing { entries: vec![e.clone()] }), Ok(vec![e]));
    assert_eq!(
        check_listing(Message::ListError { reason: "no".into() }),
        Err(ClientError::ListFailed { reason: "no".into() })
    );
    assert_eq!(check_listing(Message::UploadAck), Err(ClientError::UnexpectedResponse(Message::UploadAck)));
}

#[test]
fn download_start_cases() {
    assert_eq!(check_download_start(download_opening(0, 5)), Ok(5));
    assert_eq!(
        check_download_start(download_opening(6, 5)),
        Err(ClientError::DownloadFailed { reason: "resume offset 6 is past end of file (size 5)".into() })
    );
}

#[test]
fn upload_ready_cases() {
    assert_eq!(check_upload_ready(Message::UploadReady { offset: 3 }, 10), Ok(3));
    assert_eq!(check_upload_ready(Message::UploadReady { offset: 10 }, 10), Ok(10));
    assert_eq!(
        check_upload_ready(Message::UploadReady { offset: 11 }, 10),
        Err(ClientError::RemoteLarger { offset: 11, size: 10 })
    );
    assert_eq!(check_upload_ready(Message::Ping, 10), Err(ClientError::UnexpectedResponse(Message::Ping)));
}

#[test]
fn upload_reply_end_to_end() {
    assert_eq!(check_upload_reply(upload_verdict(&"x".into(), &"x".into())), Ok(()));
    assert_eq!(
        check_upload_reply(upload_verdict(&"x".into(), &"y".into())),
        Err(ClientError::UploadFailed { reason: "checksum mismatch: client sent x, server computed y".into() })
    );
}

#[test]
fn download_progress_counts_data() {
    let mut p = DownloadProgress::new(4, 10);
    assert_eq!(p.on_frame(Frame::Data(vec![1, 2, 3])), DownloadStep::Write(vec![1, 2, 3]));
    assert_eq!(p.received, 7);
    assert_eq!(p.on_frame(Frame::Data(vec![4, 5, 6])), DownloadStep::Write(vec![4, 5, 6]));
    assert_eq!(p.received, 10);
    assert_eq!(p.size, 10);
    assert_eq!(
        p.on_frame(Frame::Control(Message::DownloadEnd { checksum: "c".into() })),
        DownloadStep::Finish { checksum: "c".into() }
    );
    assert_eq!(p.received, 10);
    assert_eq!(
        p.on_frame(Frame::Control(Message::Ping)),
        DownloadStep::Fail(ClientError::UnexpectedMidDownload(Message::Ping))
    );
}

const SHA_ABC: &str = "ba7816bf8f01cfea414140de5dae2223b00361a396177a9cb410ff61f20015ad";

#[test]
fn download_checksum_covers_kept_and_received_bytes() {
    let mut p = DownloadProgress::new(1, 3);
    p.keep(b"a");
    p.on_frame(Frame::Data(b"bc".to_vec()));
    assert_eq!(p.received, 3);
    assert_eq!(p.finish(&SHA_ABC.to_string()), Ok(()));

    let mut p = DownloadProgress::new(0, 3);
    p.on_frame(Frame::Data(b"abc".to_vec()));
    assert_eq!(
        p.finish(&"00".to_string()),
        Err(ClientError::ChecksumMismatch { sent: "00".into(), computed: SHA_ABC.into() })
    );
}

#[test]
fn cursor_sends_the_rest_and_hashes_all() {
    let mut c = ChunkCursor::new(2);
    assert_eq!(c.advance(b"a"), None);
    assert_eq!(c.advance(b"bc"), Some(1));
    assert_eq!(c.position, 3);
    assert_eq!(c.checksum(), SHA_ABC);
}

#[test]
fn finish_download_cases() {
    assert_eq!(finish_download(&"a".into(), &"a".into()), Ok(()));
    assert_eq!(
        finish_download(&"a".into(), &"b".into()),
        Err(ClientError::ChecksumMismatch { sent: "a".into(), computed: "b".into() })
    );
}

#[test]
fn resume_offset_cases() {
    assert_eq!(resume_offset(true, Some(7)), 7);
    assert_eq!(resume_offset(true, None), 0);
    assert_eq!(resume_offset(false, Some(7)), 0);
}

#[test]
fn send_range_cases() {
    // chunk [0, 10), offset 4: send from index 4
    assert_eq!(send_range(0, 10, 4), Some(4));
    // chunk [10, 20), offset 4: all of it
    assert_eq!(send_range(10, 10, 4), Some(0));
    // chunk [0, 4), offset 4: none of it
    assert_eq!(send_range(0, 4, 4), None);
    assert_eq!(send_range(0, 10, 0), Some(0));
}

#[test]
fn resumed_stream_is_the_rest_of_the_file() {
    let file: Vec<u8> = (0..250u32).map(|i| i as u8).collect();
    for offset in [0u64, 1, 63, 64, 100, 249, 250, 300] {
        let mut sent = Vec::new();
        let mut position: u64 = 0;
        for chunk in file.chunks(64) {
            if let Some(k) = send_range(position, chunk.len(), offset) {
                sent.extend_from_slice(&chunk[k..]);
            }
            position += chunk.len() as u64;
        }
        let start = (offset as usize).min(file.len());
        assert_eq!(sent, file[start..].to_vec());
    }
    assert_eq!(CHUNK_SIZE, 64 * 1024);
}

// Sends `file` in chunks of `chunk` bytes from `offset` on, as the sending
// side does: the data frames, then the checksum of the whole file.
fn send_all(file: &[u8], chunk: usize, offset: u64) -> (Vec<Vec<u8>>, String) {
    let mut cursor = ChunkCursor::new(offset);
    let mut frames = Vec::new();
    for piece in file.chunks(chunk) {
        if let Some(from) = cursor.advance(piece) {
            if from < piece.len() {
                frames.push(piece[from..].to_vec());
            }
        }
    }
    (frames, cursor.checksum())
}

#[test]
fn download_round_trip_with_resume() {
    let file: Vec<u8> = (0..200u32).map(|i| (i * 7 % 251) as u8).collect();
    let kept = &file[..57];
    let offset = resume_offset(true, Some(kept.len() as u64));
    let size = check_download_start(download_opening(offset, file.len() as u64)).unwrap();
    assert_eq!(size, 200);
    let (frames, checksum) = send_all(&file, 16, offset);
    let mut p = DownloadProgress::new(offset, size);
    p.keep(kept);
    let mut local = kept.to_vec();
    for f in frames {
        match p.on_frame(Frame::Data(f)) {
            DownloadStep::Write(d) => local.extend_from_slice(&d),
            other => panic!("unexpected step {other:?}"),
        }
    }
    assert_eq!(p.on_frame(Frame::Control(Message::DownloadEnd { checksum: checksum.clone() })), DownloadStep::Finish { checksum: checksum.clone() });
    assert_eq!(p.received, 200);
    assert_eq!(p.finish(&checksum), Ok(()));
    assert_eq!(local, file);
}

#[test]
fn upload_round_trip_with_resume() {
    let file: Vec<u8> = (0..300u32).map(|i| (i * 13 % 256) as u8).collect();
    let stored = &file[..100];
    let offset = check_upload_ready(Message::UploadReady { offset: resume_offset(true, Some(stored.len() as u64)) }, file.len() as u64).unwrap();
    assert_eq!(offset, 100);
    let (frames, checksum) = send_all(&file, 64, offset);
    let mut r = UploadReceiver::new();
    r.keep(stored);
    let mut remote = stored.to_vec();
    for f in frames {
        match r.on_frame(Frame::Data(f)) {
            UploadStep::Write(d) => remote.extend_from_slice(&d),
            other => panic!("unexpected step {other:?}"),
        }
    }
    assert_eq!(remote, file);
    let verdict = r.verdict(&checksum);
    assert_eq!(verdict, Message::UploadAck);
    assert_eq!(check_upload_reply(verdict), Ok(()));
}
