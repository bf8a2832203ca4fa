use subspace_conduit::framing::{
    decode_payload, encode_control, encode_data, expect_control, next_frame, wire_frame, Frame, FrameError,
    RawFrame, MAX_FRAME_LEN, TAG_CONTROL, TAG_DATA,
};
use subspace_conduit::protocol::Message;

#[test]
fn control_payload_starts_with_its_tag() {
    let p = encode_control(b"{\"Ping\":null}");
    assert_eq!(p[0], TAG_CONTROL);
    assert_eq!(&p[1..], b"{\"Ping\":null}");
}

#[test]
fn data_payload_starts_with_its_tag() {
    let p = encode_data(&[9, 8, 7]);
    assert_eq!(p, vec![TAG_DATA, 9, 8, 7]);
}

#[test]
fn payload_roundtrip() {
    let p = encode_data(b"hello");
    assert_eq!(decode_payload(&p), Ok(RawFrame::Data(b"hello".to_vec())));
    let c = encode_control(b"\"Pong\"");
    assert_eq!(decode_payload(&c), Ok(RawFrame::Control(b"\"Pong\"".to_vec())));
}

#[test]
fn empty_payload_is_refused() {
    assert_eq!(decode_payload(&[]), Err(FrameError::Empty));
}

#[test]
fn unknown_tag_is_refused() {
    assert_eq!(decode_payload(&[7, 1, 2]), Err(FrameError::UnknownTag(7)));
}

#[test]
fn wire_frame_has_big_endian_length() {
    let w = wire_frame(&[1, 2, 3]).unwrap();
    assert_eq!(w, vec![0, 0, 0, 3, 1, 2, 3]);
    let big = vec![5u8; 300];
    let w = wire_frame(&big).unwrap();
    assert_eq!(&w[..4], &[0, 0, 1, 44]);
    assert_eq!(w.len(), 304);
}

#[test]
fn oversized_payload_is_refused() {
    let big = vec![0u8; MAX_FRAME_LEN + 1];
    assert_eq!(wire_frame(&big), Err(FrameError::TooLarge));
    let ok = vec![0u8; MAX_FRAME_LEN];
    assert!(wire_frame(&ok).is_ok());
}

#[test]
fn next_frame_reads_one_frame_and_leaves_the_rest() {
    let mut buf = wire_frame(&encode_data(b"abc")).unwrap();
    let second = wire_frame(&encode_control(b"\"Ping\"")).unwrap();
    buf.extend_from_slice(&second);
    let (f, rest) = next_frame(&buf).unwrap().unwrap();
    assert_eq!(f, RawFrame::Data(b"abc".to_vec()));
    assert_eq!(rest, second);
    let (g, rest2) = next_frame(&rest).unwrap().unwrap();
    assert_eq!(g, RawFrame::Control(b"\"Ping\"".to_vec()));
    assert!(rest2.is_empty());
}

#[test]
fn incomplete_frames_wait() {
    let w = wire_frame(&encode_data(b"abcdef")).unwrap();
    for k in 0..w.len() {
        assert_eq!(next_frame(&w[..k]), Ok(None));
    }
}

#[test]
fn announced_oversize_is_refused() {
    assert_eq!(next_frame(&[0, 0x80, 0, 1, 1]), Err(FrameError::TooLarge));
}

#[test]
fn empty_frame_on_the_wire_is_refused() {
    assert_eq!(next_frame(&[0, 0, 0, 0]), Err(FrameError::Empty));
}

#[test]
fn data_where_control_expected() {
    assert_eq!(expect_control(Frame::Data(vec![1])), Err(FrameError::ExpectedControl));
    assert_eq!(expect_control(Frame::Control(Message::Ping)), Ok(Message::Ping));
}
