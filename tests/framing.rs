use chat::framing::{encode_frame, frame_length, payload_outcome, FrameDecoder};
use chat::protocol::{ChatMessage, ChatMessageContent, ChatProtocolError, Datagram, ServerResponse};

fn round_trip(payload: &[u8]) -> Vec<u8> {
    let bytes = encode_frame(payload).unwrap();
    let mut decoder = FrameDecoder::new();
    decoder.push(&bytes);
    let out = decoder.next_frame().unwrap();
    assert_eq!(decoder.buffered(), 0);
    out
}

#[test]
fn frame_round_trip_empty_payload() {
    assert_eq!(encode_frame(&[]).unwrap(), vec![0, 0, 0, 0]);
    assert_eq!(round_trip(&[]), Vec::<u8>::new());
}

#[test]
fn frame_round_trip_small_payload() {
    let payload = b"hello".to_vec();
    assert_eq!(encode_frame(&payload).unwrap(), vec![5, 0, 0, 0, b'h', b'e', b'l', b'l', b'o']);
    assert_eq!(round_trip(&payload), payload);
}

#[test]
fn frame_round_trip_large_payload() {
    let payload: Vec<u8> = (0..300_000u32).map(|i| (i % 251) as u8).collect();
    let bytes = encode_frame(&payload).unwrap();
    assert_eq!(&bytes[..4], &[0xe0, 0x93, 0x04, 0x00]);
    assert_eq!(round_trip(&payload), payload);
}

#[test]
fn frame_length_is_little_endian() {
    assert_eq!(frame_length(&[12, 0, 0, 0]), 12);
    assert_eq!(frame_length(&[0x01, 0x02, 0x03, 0x04]), 0x0403_0201);
    assert_eq!(frame_length(&[0xff, 0xff, 0xff, 0xff]), u32::MAX);
}

#[test]
fn frames_split_across_chunks_and_back_to_back() {
    let mut decoder = FrameDecoder::new();
    let mut stream = encode_frame(b"ab").unwrap();
    stream.extend(encode_frame(b"cde").unwrap());
    assert_eq!(decoder.receive(Some(&stream[..3])).unwrap(), None);
    assert_eq!(decoder.receive(Some(&stream[3..7])).unwrap(), Some(b"ab".to_vec()));
    assert_eq!(decoder.receive(Some(&stream[7..])).unwrap(), Some(b"cde".to_vec()));
    assert_eq!(decoder.receive(Some(&[])).unwrap(), None);
}

#[test]
fn truncated_payload_is_io_error() {
    let mut decoder = FrameDecoder::new();
    let bytes = [12u8, 0, 0, 0, 1, 2, 3, 4, 5];
    assert_eq!(decoder.receive(Some(&bytes)).unwrap(), None);
    assert_eq!(decoder.receive(None), Err(ChatProtocolError::IOError));
}

#[test]
fn truncated_header_is_io_error() {
    let mut decoder = FrameDecoder::new();
    assert_eq!(decoder.receive(Some(&[3, 0])).unwrap(), None);
    assert_eq!(decoder.receive(None), Err(ChatProtocolError::IOError));
    let mut fresh = FrameDecoder::new();
    assert_eq!(fresh.receive(None), Err(ChatProtocolError::IOError));
}

#[test]
fn garbage_payload_is_malformed_and_stream_stays_in_step() {
    let mut decoder = FrameDecoder::new();
    let garbage = [0xffu8; 12];
    let mut bytes = vec![12u8, 0, 0, 0];
    bytes.extend_from_slice(&garbage);
    bytes.extend(encode_frame(b"next").unwrap());
    let first = decoder.receive(Some(&bytes)).unwrap().unwrap();
    assert_eq!(first, garbage.to_vec());
    assert_eq!(payload_outcome(None), Err(ChatProtocolError::MalformedMessage));
    let second = decoder.receive(Some(&[])).unwrap().unwrap();
    assert_eq!(second, b"next".to_vec());
}

#[test]
fn decoded_payload_is_passed_on() {
    let d = Datagram::Message(ChatMessage::new(
        "alice".to_string(),
        ChatMessageContent::File("a.txt".to_string(), vec![1, 2]),
    ));
    assert_eq!(payload_outcome(Some(d.clone())), Ok(d));
    let r = Datagram::ServerResponse(ServerResponse::LoginOk);
    assert_eq!(payload_outcome(Some(r.clone())), Ok(r));
}
