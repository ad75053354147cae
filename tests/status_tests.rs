use rust_mc_status::codec::write_var_int;
use rust_mc_status::json::json_tree;
use rust_mc_status::{JavaStatus, McClient, McError};

fn java_status(json: &str) -> JavaStatus {
    let client = McClient::new();
    let value: serde_json::Value = serde_json::from_str(json).unwrap();
    client.parse_java_json(&json_tree(&value), &value).unwrap()
}

fn status_reply(json: &[u8]) -> Vec<u8> {
    let mut body = Vec::new();
    write_var_int(&mut body, 0);
    write_var_int(&mut body, json.len() as i32);
    body.extend_from_slice(json);
    let mut packet = Vec::new();
    write_var_int(&mut packet, body.len() as i32);
    packet.extend_from_slice(&body);
    packet
}

#[test]
fn description_plain_string() {
    assert_eq!(java_status(r#"{"description": "Hello"}"#).description, "Hello");
}

#[test]
fn description_text_member() {
    assert_eq!(java_status(r#"{"description": {"text": "Hi"}}"#).description, "Hi");
}

#[test]
fn description_missing() {
    assert_eq!(java_status("{}").description, "No description");
}

#[test]
fn defaults_when_fields_missing() {
    let s = java_status("{}");
    assert_eq!(s.version.name, "Unknown");
    assert_eq!(s.version.protocol, 0);
    assert_eq!(s.players.online, 0);
    assert_eq!(s.players.max, 0);
    assert!(s.players.sample.is_none());
    assert!(s.favicon.is_none());
    assert!(s.map.is_none());
    assert!(s.gamemode.is_none());
    assert!(s.software.is_none());
    assert!(s.plugins.is_none());
    assert!(s.mods.is_none());
}

#[test]
fn plugins_absent_is_none() {
    assert!(java_status(r#"{"description": "x"}"#).plugins.is_none());
}

#[test]
fn plugins_one_entry() {
    let s = java_status(r#"{"plugins": [{"name":"WorldEdit","version":"7.0"}]}"#);
    let plugins = s.plugins.unwrap();
    assert_eq!(plugins.len(), 1);
    assert_eq!(plugins[0].name, "WorldEdit");
    assert_eq!(plugins[0].version.as_deref(), Some("7.0"));
}

#[test]
fn plugins_and_mods_drop_unnamed_entries() {
    let s = java_status(
        r#"{"plugins": [{"version":"1"}, {"name":"A"}], "mods": [{"modid":"m","version":"2"}, {"name":"x"}, 5]}"#,
    );
    let plugins = s.plugins.unwrap();
    assert_eq!(plugins.len(), 1);
    assert_eq!(plugins[0].name, "A");
    assert!(plugins[0].version.is_none());
    let mods = s.mods.unwrap();
    assert_eq!(mods.len(), 1);
    assert_eq!(mods[0].modid, "m");
    assert_eq!(mods[0].version.as_deref(), Some("2"));
}

#[test]
fn full_status_fields() {
    let s = java_status(
        r#"{"version":{"name":"1.20.1","protocol":763},
            "players":{"online":5,"max":20,"sample":[{"name":"Steve","id":"abc"},{"name":"NoId"}]},
            "description":{"text":"A server"},
            "favicon":"data:image/png;base64,aGVsbG8=",
            "map":"world","gamemode":"survival","software":"Paper",
            "plugins":"not a list"}"#,
    );
    assert_eq!(s.version.name, "1.20.1");
    assert_eq!(s.version.protocol, 763);
    assert_eq!(s.players.online, 5);
    assert_eq!(s.players.max, 20);
    let sample = s.players.sample.as_ref().unwrap();
    assert_eq!(sample.len(), 1);
    assert_eq!(sample[0].name, "Steve");
    assert_eq!(sample[0].id, "abc");
    assert_eq!(s.description, "A server");
    assert_eq!(s.map.as_deref(), Some("world"));
    assert_eq!(s.gamemode.as_deref(), Some("survival"));
    assert_eq!(s.software.as_deref(), Some("Paper"));
    assert!(s.plugins.is_none());
    assert_eq!(s.raw_data["version"]["protocol"], serde_json::Value::from(763));
}

#[test]
fn wrong_shapes_use_defaults() {
    let s = java_status(r#"{"version":{"name":5,"protocol":"x"},"players":{"online":1.5,"max":-3},"description":7}"#);
    assert_eq!(s.version.name, "Unknown");
    assert_eq!(s.version.protocol, 0);
    assert_eq!(s.players.online, 0);
    assert_eq!(s.players.max, 0);
    assert_eq!(s.description, "No description");
}

#[test]
fn favicon_payload_and_bytes() {
    let s = java_status(r#"{"favicon":"data:image/png;base64,aGVsbG8="}"#);
    assert_eq!(s.favicon_payload().unwrap(), "aGVsbG8=");
    assert_eq!(s.favicon_bytes().unwrap(), b"hello".to_vec());
    let plain = java_status(r#"{"favicon":"aGk="}"#);
    assert_eq!(plain.favicon_bytes().unwrap(), b"hi".to_vec());
}

#[test]
fn favicon_errors() {
    let bad = java_status(r#"{"favicon":"data:,%%%"}"#);
    assert!(matches!(bad.favicon_bytes(), Err(McError::Base64Error(_))));
    let none = java_status("{}");
    assert!(matches!(none.favicon_bytes(), Err(McError::InvalidResponse(_))));
    assert!(matches!(none.favicon_payload(), Err(McError::InvalidResponse(_))));
}

#[test]
fn java_response_parses_payload() {
    let client = McClient::new();
    let reply = status_reply(br#"{"description":"Hello"}"#);
    let value = client.parse_java_response(&reply).unwrap();
    let s = client.parse_java_json(&json_tree(&value), &value).unwrap();
    assert_eq!(s.description, "Hello");
}

#[test]
fn java_response_bad_utf8() {
    let client = McClient::new();
    let reply = status_reply(&[0x22, 0xFF, 0x22]);
    assert!(matches!(client.parse_java_response(&reply), Err(McError::Utf8Error(_))));
}

#[test]
fn java_response_bad_json() {
    let client = McClient::new();
    let reply = status_reply(b"{not json");
    assert!(matches!(client.parse_java_response(&reply), Err(McError::JsonError(_))));
}

#[test]
fn java_response_bad_frame() {
    let client = McClient::new();
    assert!(matches!(client.parse_java_response(&[0x05, 0x00]), Err(McError::InvalidResponse(_))));
}

#[test]
fn large_favicon_decodes() {
    let data = "A".repeat(40000);
    let json = format!("{{\"favicon\":\"data:image/png;base64,{}\"}}", data);
    let s = java_status(&json);
    let bytes = s.favicon_bytes().unwrap();
    assert_eq!(bytes.len(), 30000);
    assert!(bytes.iter().all(|b| *b == 0));
}

#[test]
fn negative_player_counts_become_zero() {
    let s = java_status(r#"{"players":{"online":-1,"max":-20}}"#);
    assert_eq!(s.players.online, 0);
    assert_eq!(s.players.max, 0);
    let t = java_status(r#"{"players":{"online":0,"max":7}}"#);
    assert_eq!(t.players.max, 7);
}
