use rust_mc_status::bedrock::parse_bedrock_reply;
use rust_mc_status::{McClient, McError};

fn reply_with(payload: &[u8]) -> Vec<u8> {
    let mut r = vec![0x1Cu8; 35];
    r.extend_from_slice(payload);
    r
}

#[test]
fn bedrock_full_payload() {
    let r = reply_with(b"MCPE;My Server;422;1.18.0;5;20;123456;Bedrock;Survival;1");
    let s = parse_bedrock_reply(&r).unwrap();
    assert_eq!(s.edition, "MCPE");
    assert_eq!(s.motd, "My Server");
    assert_eq!(s.protocol_version, "422");
    assert_eq!(s.version, "1.18.0");
    assert_eq!(s.online_players, "5");
    assert_eq!(s.max_players, "20");
    assert_eq!(s.server_uid, "123456");
    assert_eq!(s.motd2, "Bedrock");
    assert_eq!(s.game_mode, "Survival");
    assert_eq!(s.game_mode_numeric, "1");
    assert_eq!(s.port_ipv4, "");
    assert_eq!(s.port_ipv6, "");
    assert!(s.map.is_none());
    assert!(s.software.is_none());
    assert_eq!(s.raw_data, "MCPE;My Server;422;1.18.0;5;20;123456;Bedrock;Survival;1");
}

#[test]
fn bedrock_all_fourteen_fields() {
    let client = McClient::new();
    let s = client
        .parse_bedrock_response("MCPE;m;1;v;2;3;u;m2;g;0;19132;19133;world;soft;")
        .unwrap();
    assert_eq!(s.port_ipv4, "19132");
    assert_eq!(s.port_ipv6, "19133");
    assert_eq!(s.map.as_deref(), Some("world"));
    assert_eq!(s.software.as_deref(), Some("soft"));
}

#[test]
fn bedrock_too_few_fields() {
    let client = McClient::new();
    assert!(matches!(client.parse_bedrock_response("MCPE;a;b;c;d"), Err(McError::InvalidResponse(_))));
    assert!(client.parse_bedrock_response("MCPE;a;b;c;d;").is_ok());
    let r = reply_with(b"MCPE;My Server;422");
    assert!(matches!(parse_bedrock_reply(&r), Err(McError::InvalidResponse(_))));
}

#[test]
fn bedrock_short_reply_rejected() {
    for n in [0usize, 1, 20, 34] {
        let r = vec![b';'; n];
        assert!(matches!(parse_bedrock_reply(&r), Err(McError::InvalidResponse(_))));
    }
    assert!(matches!(parse_bedrock_reply(&reply_with(b"")), Err(McError::InvalidResponse(_))));
}

#[test]
fn bedrock_invalid_utf8_replaced() {
    let r = reply_with(b"MCPE;M\xFFy;1;v;2;3");
    let s = parse_bedrock_reply(&r).unwrap();
    assert_eq!(s.motd, "M\u{FFFD}y");
}

#[test]
fn bedrock_ping_packet_bytes() {
    let client = McClient::new();
    let p = client.create_bedrock_ping_packet(0x0102030405060708);
    let mut expected = vec![0x01, 1, 2, 3, 4, 5, 6, 7, 8];
    expected.extend_from_slice(&[0x00, 0xFF, 0xFF, 0x00, 0xFE, 0xFE, 0xFE, 0xFE, 0xFD, 0xFD, 0xFD, 0xFD, 0x12, 0x34, 0x56, 0x78]);
    expected.extend_from_slice(&[0u8; 8]);
    assert_eq!(p, expected);
}
