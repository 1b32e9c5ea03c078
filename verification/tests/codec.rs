use drawing_board::codec::{decode_length, encode_length, HEADER_LENGTH};
use drawing_board::{
    encode_frame, frame_length, read_from_stream, FramingError, Message, MAX_FRAME_LENGTH,
};

#[test]
fn header_is_eight_bytes_most_significant_first() {
    assert_eq!(HEADER_LENGTH, 8);
    assert_eq!(encode_length(0), [0, 0, 0, 0, 0, 0, 0, 0]);
    assert_eq!(encode_length(5), [0, 0, 0, 0, 0, 0, 0, 5]);
    assert_eq!(encode_length(256), [0, 0, 0, 0, 0, 0, 1, 0]);
    assert_eq!(
        encode_length(0x0102_0304_0506_0708),
        [0x01, 0x02, 0x03, 0x04, 0x05, 0x06, 0x07, 0x08]
    );
    assert_eq!(encode_length(u64::MAX), [0xff; 8]);
}

#[test]
fn header_agrees_with_the_standard_encoding() {
    for value in [0u64, 1, 255, 256, 65_535, 65_536, 128_000_000, 1 << 40, u64::MAX - 1] {
        assert_eq!(encode_length(value), value.to_be_bytes());
        assert_eq!(decode_length(&value.to_be_bytes()), value);
    }
}

#[test]
fn frame_is_header_then_body() {
    assert_eq!(
        encode_frame(b"hello"),
        vec![0, 0, 0, 0, 0, 0, 0, 5, b'h', b'e', b'l', b'l', b'o']
    );
    assert_eq!(encode_frame(b""), vec![0, 0, 0, 0, 0, 0, 0, 0]);
    let body = vec![7u8; 300];
    let frame = encode_frame(&body);
    assert_eq!(frame.len(), 308);
    assert_eq!(&frame[..8], &[0, 0, 0, 0, 0, 0, 1, 44]);
    assert_eq!(&frame[8..], &body[..]);
}

#[test]
fn into_sendable_frames_the_text() {
    let text = "{\"uuid\":\"00000000-0000-0000-0000-000000000000\",\"msg_type\":\"KeepAlive\"}";
    let frame = Message::into_sendable(text);
    assert_eq!(&frame[..8], &(text.len() as u64).to_be_bytes());
    assert_eq!(&frame[8..], text.as_bytes());
    let accented = "é";
    assert_eq!(Message::into_sendable(accented), vec![0, 0, 0, 0, 0, 0, 0, 2, 0xc3, 0xa9]);
}

#[test]
fn frame_reads_back_as_its_body() {
    let body = b"a message body".to_vec();
    let mut stream = encode_frame(&body);
    assert_eq!(read_from_stream(&stream), Ok((body.clone(), 8 + body.len())));
    stream.extend_from_slice(b"what follows");
    assert_eq!(read_from_stream(&stream), Ok((body.clone(), 8 + body.len())));
    let second = encode_frame(b"next");
    let mut two = encode_frame(&body);
    two.extend_from_slice(&second);
    let (first_body, used) = read_from_stream(&two).unwrap();
    assert_eq!(first_body, body);
    assert_eq!(read_from_stream(&two[used..]), Ok((b"next".to_vec(), 12)));
}

#[test]
fn empty_frame_reads_back() {
    assert_eq!(read_from_stream(&[0, 0, 0, 0, 0, 0, 0, 0]), Ok((vec![], 8)));
}

#[test]
fn short_stream_is_truncated() {
    assert_eq!(read_from_stream(&[]), Err(FramingError::Truncated));
    assert_eq!(read_from_stream(&[0, 0, 0, 0, 0, 0, 0]), Err(FramingError::Truncated));
    assert_eq!(read_from_stream(&[0, 0, 0, 0, 0, 0, 0, 3, 1, 2]), Err(FramingError::Truncated));
}

#[test]
fn oversized_frame_is_refused() {
    assert_eq!(MAX_FRAME_LENGTH, 128_000_000);
    let at_limit = 128_000_000u64.to_be_bytes();
    let over_limit = 128_000_001u64.to_be_bytes();
    assert_eq!(frame_length(&at_limit), Ok(128_000_000));
    assert_eq!(frame_length(&over_limit), Err(FramingError::Oversized));
    assert_eq!(frame_length(&[0xff; 8]), Err(FramingError::Oversized));
    assert_eq!(frame_length(&[0x80, 0, 0, 0, 0, 0, 0, 0]), Err(FramingError::Oversized));
    assert_eq!(read_from_stream(&over_limit), Err(FramingError::Oversized));
    assert_eq!(read_from_stream(&at_limit), Err(FramingError::Truncated));
}

#[test]
fn frame_length_reads_the_header() {
    assert_eq!(frame_length(&[0, 0, 0, 0, 0, 0, 0, 0]), Ok(0));
    assert_eq!(frame_length(&[0, 0, 0, 0, 0, 0, 1, 0]), Ok(256));
    assert_eq!(frame_length(&[0, 0, 0, 0, 0, 1, 0, 1]), Ok(65_537));
}
