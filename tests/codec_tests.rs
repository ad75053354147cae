use rust_mc_status::codec::{read_var_int, write_string, write_var_int, VarIntError};
use rust_mc_status::frame::{handshake_packet, parse_status_frame, status_request_packet, ResponseBuffer};
use rust_mc_status::McError;

fn encode(v: i32) -> Vec<u8> {
    let mut b = Vec::new();
    write_var_int(&mut b, v);
    b
}

#[test]
fn var_int_known_encodings() {
    assert_eq!(encode(0), vec![0x00]);
    assert_eq!(encode(1), vec![0x01]);
    assert_eq!(encode(127), vec![0x7F]);
    assert_eq!(encode(128), vec![0x80, 0x01]);
    assert_eq!(encode(300), vec![0xAC, 0x02]);
    assert_eq!(encode(25565), vec![0xDD, 0xC7, 0x01]);
    assert_eq!(encode(2147483647), vec![0xFF, 0xFF, 0xFF, 0xFF, 0x07]);
    assert_eq!(encode(-1), vec![0xFF, 0xFF, 0xFF, 0xFF, 0x0F]);
}

#[test]
fn var_int_round_trip() {
    for v in [0, 1, 2, 127, 128, 255, 300, 16383, 16384, 2097151, 2097152, 268435455, 268435456, 2147483647, -1, -2147483648] {
        let mut b = encode(v);
        assert!(b.len() >= 1 && b.len() <= 5);
        let n = b.len();
        b.extend_from_slice(&[0xAA, 0x01]);
        let mut pos = 0usize;
        assert_eq!(read_var_int(&b, &mut pos), Ok(v));
        assert_eq!(pos, n);
    }
}

#[test]
fn var_int_at_offset() {
    let b = vec![0x09, 0xAC, 0x02, 0x05];
    let mut pos = 1usize;
    assert_eq!(read_var_int(&b, &mut pos), Ok(300));
    assert_eq!(pos, 3);
    assert_eq!(read_var_int(&b, &mut pos), Ok(5));
    assert_eq!(pos, 4);
}

#[test]
fn var_int_sixth_byte_is_too_long() {
    let b = vec![0x80, 0x80, 0x80, 0x80, 0x80, 0x00];
    let mut pos = 0usize;
    assert_eq!(read_var_int(&b, &mut pos), Err(VarIntError::TooLong));
    assert_eq!(pos, 0);
    let b = vec![0xFF, 0xFF, 0xFF, 0xFF, 0xFF, 0x80, 0x01];
    assert_eq!(read_var_int(&b, &mut pos), Err(VarIntError::TooLong));
}

#[test]
fn var_int_truncated() {
    let mut pos = 0usize;
    assert_eq!(read_var_int(&[], &mut pos), Err(VarIntError::Truncated));
    assert_eq!(read_var_int(&[0x80, 0x80], &mut pos), Err(VarIntError::Truncated));
    assert_eq!(read_var_int(&[0x80, 0x80, 0x80, 0x80, 0x80], &mut pos), Err(VarIntError::Truncated));
}

#[test]
fn string_is_length_prefixed() {
    let mut b = vec![0x42];
    write_string(&mut b, "localhost");
    let mut expected = vec![0x42, 9];
    expected.extend_from_slice(b"localhost");
    assert_eq!(b, expected);
    let mut e = Vec::new();
    write_string(&mut e, "");
    assert_eq!(e, vec![0]);
}

#[test]
fn handshake_bytes() {
    let p = handshake_packet("localhost", 25565);
    let mut body = vec![0x00, 47, 9];
    body.extend_from_slice(b"localhost");
    body.extend_from_slice(&[0x63, 0xDD, 0x01]);
    let mut expected = vec![body.len() as u8];
    expected.extend_from_slice(&body);
    assert_eq!(p, expected);
}

#[test]
fn status_request_bytes() {
    assert_eq!(status_request_packet(), vec![0x01, 0x00]);
}

fn status_reply(json: &str) -> Vec<u8> {
    let mut body = Vec::new();
    write_var_int(&mut body, 0);
    write_string(&mut body, json);
    let mut packet = Vec::new();
    write_var_int(&mut packet, body.len() as i32);
    packet.extend_from_slice(&body);
    packet
}

#[test]
fn response_buffer_accumulates_fragments() {
    let reply = status_reply("{\"description\":\"Hello there\"}");
    let mut buf = ResponseBuffer::new();
    assert!(!buf.push_chunk(&reply[..2]));
    assert_eq!(buf.expected, Some(reply.len()));
    assert!(!buf.push_chunk(&reply[2..7]));
    assert!(!buf.push_chunk(&reply[7..reply.len() - 1]));
    assert!(buf.push_chunk(&reply[reply.len() - 1..]));
    let data = buf.into_response().unwrap();
    assert_eq!(data, reply);
}

#[test]
fn response_buffer_whole_packet_at_once() {
    let reply = status_reply("{}");
    let mut buf = ResponseBuffer::new();
    assert!(buf.push_chunk(&reply));
}

#[test]
fn response_buffer_short_packet_completes() {
    let mut buf = ResponseBuffer::new();
    assert!(buf.push_chunk(&[0x01, 0x00]));
    assert_eq!(buf.into_response().unwrap(), vec![0x01, 0x00]);
}

#[test]
fn response_buffer_prefix_split_across_reads() {
    let mut buf = ResponseBuffer::new();
    assert!(!buf.push_chunk(&[0x80]));
    assert_eq!(buf.expected, None);
    assert!(!buf.push_chunk(&[0x01]));
    assert_eq!(buf.expected, Some(130));
}

#[test]
fn incomplete_response_is_invalid() {
    let reply = status_reply("{\"a\":1}");
    let mut buf = ResponseBuffer::new();
    assert!(!buf.push_chunk(&reply[..reply.len() - 1]));
    assert!(matches!(buf.into_response(), Err(McError::InvalidResponse(_))));
    let mut unknown = ResponseBuffer::new();
    assert!(!unknown.push_chunk(&[0x80]));
    assert!(matches!(unknown.into_response(), Err(McError::InvalidResponse(_))));
}

#[test]
fn empty_response_is_invalid() {
    let buf = ResponseBuffer::new();
    assert!(matches!(buf.into_response(), Err(McError::InvalidResponse(_))));
}

#[test]
fn frame_gives_json_bytes() {
    let reply = status_reply("{\"a\":1}");
    assert_eq!(parse_status_frame(&reply).unwrap(), b"{\"a\":1}".to_vec());
}

#[test]
fn frame_wrong_packet_id() {
    let mut reply = status_reply("{}");
    reply[1] = 0x01;
    assert!(matches!(parse_status_frame(&reply), Err(McError::InvalidResponse(_))));
}

#[test]
fn frame_incomplete_packet() {
    let reply = status_reply("{\"a\":1}");
    assert!(matches!(parse_status_frame(&reply[..reply.len() - 1]), Err(McError::InvalidResponse(_))));
    assert!(matches!(parse_status_frame(&[]), Err(McError::InvalidResponse(_))));
}

#[test]
fn frame_json_length_past_end() {
    let reply = vec![0x03, 0x00, 0x10, b'{'];
    assert!(matches!(parse_status_frame(&reply), Err(McError::InvalidResponse(_))));
}
