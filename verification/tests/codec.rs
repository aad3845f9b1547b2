use bytes::BytesMut;
use nsqueue::codec::{DecodeError, DecodedFrame, EncodeError, NsqCodec};
use nsqueue::commands::VERSION_2;
use nsqueue::protocol::RequestMessage;

fn frame(frame_type: u32, data: &[u8]) -> Vec<u8> {
    let mut v = Vec::new();
    v.extend_from_slice(&((data.len() as u32) + 4).to_be_bytes());
    v.extend_from_slice(&frame_type.to_be_bytes());
    v.extend_from_slice(data);
    v
}

fn message_data(timestamp: i64, id: &[u8], body: &[u8]) -> Vec<u8> {
    let mut v = Vec::new();
    v.extend_from_slice(&timestamp.to_be_bytes());
    v.extend_from_slice(&3u16.to_be_bytes());
    v.extend_from_slice(id);
    v.extend_from_slice(body);
    v
}

#[test]
fn short_buffer_asks_for_more() {
    let mut codec = NsqCodec { decoding_head: true };
    let mut buf = BytesMut::from(&[0u8, 0, 0, 6, 0, 0, 0][..]);
    assert!(matches!(codec.decode(&mut buf), Ok(None)));
    assert_eq!(buf.len(), 7);
    assert!(codec.decoding_head);
}

#[test]
fn partial_frame_asks_for_more() {
    let mut codec = NsqCodec { decoding_head: true };
    let full = frame(0, b"OK");
    let mut buf = BytesMut::from(&full[..full.len() - 1]);
    assert!(matches!(codec.decode(&mut buf), Ok(None)));
    assert_eq!(buf.len(), full.len() - 1);
}

#[test]
fn response_frame_is_decoded_and_removed() {
    let mut codec = NsqCodec { decoding_head: true };
    let mut buf = BytesMut::from(&frame(0, b"OK")[..]);
    match codec.decode(&mut buf) {
        Ok(Some(DecodedFrame::Message { message, body })) => {
            assert_eq!(message, "OK");
            assert!(!body);
        }
        _ => panic!("expected a response"),
    }
    assert!(buf.is_empty());
    assert!(codec.decoding_head);
}

#[test]
fn trailing_bytes_stay_in_the_buffer() {
    let mut codec = NsqCodec { decoding_head: false };
    let mut bytes = frame(0, b"OK");
    bytes.extend_from_slice(&[1, 2, 3]);
    let mut buf = BytesMut::from(&bytes[..]);
    match codec.decode(&mut buf) {
        Ok(Some(DecodedFrame::Message { message, body })) => {
            assert_eq!(message, "OK");
            assert!(!body);
        }
        _ => panic!("expected a response"),
    }
    assert_eq!(&buf[..], &[1u8, 2, 3][..]);
}

#[test]
fn heartbeat_before_the_stream_opens_it() {
    let mut codec = NsqCodec { decoding_head: true };
    let mut buf = BytesMut::from(&frame(0, b"_heartbeat_")[..]);
    match codec.decode(&mut buf) {
        Ok(Some(DecodedFrame::Message { message, body })) => {
            assert_eq!(message, "");
            assert!(body);
        }
        _ => panic!("expected the stream to open"),
    }
    assert!(!codec.decoding_head);
    assert!(buf.is_empty());
}

#[test]
fn heartbeat_inside_the_stream_is_a_chunk() {
    let mut codec = NsqCodec { decoding_head: false };
    let mut buf = BytesMut::from(&frame(0, b"_heartbeat_")[..]);
    match codec.decode(&mut buf) {
        Ok(Some(DecodedFrame::Body { chunk: Some(m) })) => {
            assert_eq!(m.timestamp, 0);
            assert_eq!(m.message_id, "_heartbeat_");
            assert_eq!(m.message_body, "_heartbeat_");
        }
        _ => panic!("expected a heartbeat chunk"),
    }
    assert!(!codec.decoding_head);
    assert!(buf.is_empty());
}

#[test]
fn error_frame_is_refused() {
    let mut codec = NsqCodec { decoding_head: false };
    let bytes = frame(1, b"E_INVALID");
    let mut buf = BytesMut::from(&bytes[..]);
    assert!(matches!(codec.decode(&mut buf), Err(DecodeError::InvalidPacket)));
    assert_eq!(buf.len(), bytes.len());
}

#[test]
fn invalid_text_in_a_response() {
    let mut codec = NsqCodec { decoding_head: false };
    let mut buf = BytesMut::from(&frame(0, &[0xff, 0xfe])[..]);
    assert!(matches!(codec.decode(&mut buf), Err(DecodeError::InvalidUtf8)));
    assert!(buf.is_empty());
}

#[test]
fn small_size_response_is_its_header() {
    let mut codec = NsqCodec { decoding_head: false };
    let mut buf = BytesMut::from(&[0u8, 0, 0, 2, 0, 0, 0, 0, 9][..]);
    match codec.decode(&mut buf) {
        Ok(Some(DecodedFrame::Message { message, body })) => {
            assert_eq!(message, "");
            assert!(!body);
        }
        _ => panic!("expected an empty response"),
    }
    assert_eq!(&buf[..], &[9u8][..]);
}

#[test]
fn small_size_error_frame_is_refused() {
    let mut codec = NsqCodec { decoding_head: false };
    let mut buf = BytesMut::from(&[0u8, 0, 0, 0, 0, 0, 0, 1][..]);
    assert!(matches!(codec.decode(&mut buf), Err(DecodeError::InvalidPacket)));
    assert_eq!(buf.len(), 8);
}

#[test]
fn small_size_message_frame_opens_the_stream() {
    let mut codec = NsqCodec { decoding_head: true };
    let mut buf = BytesMut::from(&[0u8, 0, 0, 3, 0, 0, 0, 2][..]);
    match codec.decode(&mut buf) {
        Ok(Some(DecodedFrame::Message { message, body })) => {
            assert_eq!(message, "");
            assert!(body);
        }
        _ => panic!("expected the stream to open"),
    }
    assert!(!codec.decoding_head);
    assert_eq!(buf.len(), 8);
    assert!(matches!(codec.decode(&mut buf), Err(DecodeError::MalformedFrame)));
}

#[test]
fn small_size_unknown_frame_waits() {
    let mut codec = NsqCodec { decoding_head: false };
    let mut buf = BytesMut::from(&[0u8, 0, 0, 1, 0, 0, 0, 9][..]);
    assert!(matches!(codec.decode(&mut buf), Ok(None)));
    assert_eq!(buf.len(), 8);
}

#[test]
fn unknown_frame_type_is_left() {
    let mut codec = NsqCodec { decoding_head: false };
    let bytes = frame(7, b"x");
    let mut buf = BytesMut::from(&bytes[..]);
    assert!(matches!(codec.decode(&mut buf), Ok(None)));
    assert_eq!(buf.len(), bytes.len());
}

#[test]
fn first_message_opens_the_stream_then_arrives() {
    let mut codec = NsqCodec { decoding_head: true };
    let data = message_data(1_500_000_000, b"0123456789abcdef", b"hello");
    let bytes = frame(2, &data);
    let mut buf = BytesMut::from(&bytes[..]);
    match codec.decode(&mut buf) {
        Ok(Some(DecodedFrame::Message { message, body })) => {
            assert_eq!(message, "");
            assert!(body);
        }
        _ => panic!("expected the stream to open"),
    }
    assert_eq!(buf.len(), bytes.len());
    assert!(!codec.decoding_head);
    match codec.decode(&mut buf) {
        Ok(Some(DecodedFrame::Body { chunk: Some(m) })) => {
            assert_eq!(m.timestamp, 1_500_000_000);
            assert_eq!(m.message_id, "0123456789abcdef");
            assert_eq!(m.message_body, "hello");
        }
        _ => panic!("expected a message"),
    }
    assert!(buf.is_empty());
}

#[test]
fn negative_timestamp_is_read_as_signed() {
    let mut codec = NsqCodec { decoding_head: false };
    let data = message_data(-2, b"0123456789abcdef", b"");
    let mut buf = BytesMut::from(&frame(2, &data)[..]);
    match codec.decode(&mut buf) {
        Ok(Some(DecodedFrame::Body { chunk: Some(m) })) => {
            assert_eq!(m.timestamp, -2);
            assert_eq!(m.message_body, "");
        }
        _ => panic!("expected a message"),
    }
}

#[test]
fn short_message_frame_is_malformed() {
    let mut codec = NsqCodec { decoding_head: false };
    let bytes = frame(2, &message_data(5, b"0123", b""));
    let mut buf = BytesMut::from(&bytes[..]);
    assert!(matches!(codec.decode(&mut buf), Err(DecodeError::MalformedFrame)));
    assert_eq!(buf.len(), bytes.len());
}

#[test]
fn message_with_invalid_id_text() {
    let mut codec = NsqCodec { decoding_head: false };
    let mut id = [b'a'; 16];
    id[15] = 0xc3;
    let bytes = frame(2, &message_data(5, &id, b"body"));
    let mut buf = BytesMut::from(&bytes[..]);
    assert!(matches!(codec.decode(&mut buf), Err(DecodeError::InvalidUtf8)));
    assert_eq!(buf.len(), bytes.len());
}

#[test]
fn encode_version_magic() {
    let mut codec = NsqCodec { decoding_head: true };
    let mut request = RequestMessage::new();
    request.set_protocol_version(VERSION_2);
    let mut buf = BytesMut::new();
    assert!(codec.encode(request, &mut buf).is_ok());
    assert_eq!(&buf[..], b"  V2");
}

#[test]
fn encode_pub_request() {
    let mut codec = NsqCodec { decoding_head: true };
    let mut request = RequestMessage::new();
    request.create_pub_command("topic".to_string(), "hello".to_string());
    let mut buf = BytesMut::from(&b"xy"[..]);
    assert!(codec.encode(request, &mut buf).is_ok());
    assert_eq!(&buf[..], &b"xyPUB topic\n\x00\x00\x00\x05hello"[..]);
}

#[test]
fn encode_mpub_request() {
    let mut codec = NsqCodec { decoding_head: true };
    let mut request = RequestMessage::new();
    request.create_mpub_command("t".to_string(), vec!["ab".to_string(), "cde".to_string()]);
    let mut buf = BytesMut::new();
    assert!(codec.encode(request, &mut buf).is_ok());
    let expected: &[u8] =
        b"MPUB t\n\x00\x00\x00\x11\x00\x00\x00\x02\x00\x00\x00\x02ab\x00\x00\x00\x03cde";
    assert_eq!(&buf[..], expected);
}

#[test]
fn encode_empty_mpub_request() {
    let mut codec = NsqCodec { decoding_head: true };
    let mut request = RequestMessage::new();
    request.create_mpub_command("t".to_string(), Vec::new());
    let mut buf = BytesMut::new();
    assert!(codec.encode(request, &mut buf).is_ok());
    assert_eq!(&buf[..], &b"MPUB t\n\x00\x00\x00\x04\x00\x00\x00\x00"[..]);
}

#[test]
fn encode_dpub_request() {
    let mut codec = NsqCodec { decoding_head: true };
    let mut request = RequestMessage::new();
    request.create_dpub_command("t".to_string(), "m".to_string(), -1500);
    let mut buf = BytesMut::new();
    assert!(codec.encode(request, &mut buf).is_ok());
    assert_eq!(&buf[..], &b"DPUB t -1500\n\x00\x00\x00\x01m"[..]);
}

#[test]
fn encode_identify_request() {
    let mut codec = NsqCodec { decoding_head: true };
    let mut request = RequestMessage::new();
    request.create_identify_command("{}".to_string());
    let mut buf = BytesMut::new();
    assert!(codec.encode(request, &mut buf).is_ok());
    assert_eq!(&buf[..], &b"IDENTIFY\n\x00\x00\x00\x02{}"[..]);
}

#[test]
fn encode_keeps_the_codec_state() {
    let mut codec = NsqCodec { decoding_head: false };
    let mut request = RequestMessage::new();
    request.create_nop_command();
    let mut buf = BytesMut::new();
    let r: Result<(), EncodeError> = codec.encode(request, &mut buf);
    assert!(r.is_ok());
    assert_eq!(&buf[..], b"NOP\n");
    assert!(!codec.decoding_head);
}

#[test]
fn encode_utf8_body_counts_bytes() {
    let mut codec = NsqCodec { decoding_head: true };
    let mut request = RequestMessage::new();
    request.create_pub_command("t".to_string(), "é".to_string());
    let mut buf = BytesMut::new();
    assert!(codec.encode(request, &mut buf).is_ok());
    assert_eq!(&buf[..], &b"PUB t\n\x00\x00\x00\x02\xc3\xa9"[..]);
}

#[test]
fn mpub_body_size_counts_everything_after_it() {
    let mut codec = NsqCodec { decoding_head: true };
    let mut request = RequestMessage::new();
    request.create_mpub_command("t".to_string(), vec!["a".to_string(), "bc".to_string()]);
    let mut buf = BytesMut::new();
    assert!(codec.encode(request, &mut buf).is_ok());
    let expected: &[u8] =
        b"MPUB t\n\x00\x00\x00\x0f\x00\x00\x00\x02\x00\x00\x00\x01a\x00\x00\x00\x02bc";
    assert_eq!(&buf[..], expected);
    assert_eq!(u32::from_be_bytes([buf[7], buf[8], buf[9], buf[10]]) as usize, buf.len() - 11);
}

#[test]
fn empty_request_writes_nothing() {
    let mut codec = NsqCodec { decoding_head: true };
    let mut buf = BytesMut::from(&b"abc"[..]);
    assert!(codec.encode(RequestMessage::new(), &mut buf).is_ok());
    assert_eq!(&buf[..], b"abc");
}
