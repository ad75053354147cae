//! The records a status query returns.
use vstd::prelude::*;

verus! {

/// Resolver metadata of a host.
#[derive(Debug, Clone)]
pub struct DnsInfo {
    pub a_records: Vec<String>,
    pub cname: Option<String>,
    pub ttl: u32,
}

/// Version advertised by a TCP-protocol server.
#[derive(Debug, Clone)]
pub struct JavaVersion {
    pub name: String,
    pub protocol: i64,
}

/// Player counts and the optional sample of online players.
#[derive(Debug, Clone)]
pub struct JavaPlayers {
    pub online: i64,
    pub max: i64,
    pub sample: Option<Vec<JavaPlayer>>,
}

#[derive(Debug, Clone)]
pub struct JavaPlayer {
    pub name: String,
    pub id: String,
}

#[derive(Debug, Clone)]
pub struct JavaPlugin {
    pub name: String,
    pub version: Option<String>,
}

#[derive(Debug, Clone)]
pub struct JavaMod {
    pub modid: String,
    pub version: Option<String>,
}

/// Status of a TCP-protocol server, with the whole parsed payload kept in
/// `raw_data`.
#[derive(Debug, Clone)]
pub struct JavaStatus {
    pub version: JavaVersion,
    pub players: JavaPlayers,
    pub description: String,
    pub favicon: Option<String>,
    pub map: Option<String>,
    pub gamemode: Option<String>,
    pub software: Option<String>,
    pub plugins: Option<Vec<JavaPlugin>>,
    pub mods: Option<Vec<JavaMod>>,
    pub raw_data: serde_json::Value,
}

/// Status of a UDP-protocol server: the `;`-separated fields of its reply, by
/// position, and the whole reply text in `raw_data`.
#[derive(Debug, Clone)]
pub struct BedrockStatus {
    pub edition: String,
    pub motd: String,
    pub protocol_version: String,
    pub version: String,
    pub online_players: String,
    pub max_players: String,
    pub server_uid: String,
    pub motd2: String,
    pub game_mode: String,
    pub game_mode_numeric: String,
    pub port_ipv4: String,
    pub port_ipv6: String,
    pub map: Option<String>,
    pub software: Option<String>,
    pub raw_data: String,
}

/// The protocol-specific part of a status.
#[derive(Debug, Clone)]
pub enum ServerData {
    Java(JavaStatus),
    Bedrock(BedrockStatus),
}

/// A server to query: its address (`host` or `host:port`) and protocol.
#[derive(Debug, Clone)]
pub struct ServerInfo {
    pub address: String,
    pub edition: ServerEdition,
}

/// The two status protocols.
#[derive(Debug, Clone, Copy, PartialEq, Eq, Structural)]
pub enum ServerEdition {
    Java,
    Bedrock,
}

/// The view of an optional string.
pub open spec fn opt_text(o: Option<String>) -> Option<Seq<char>> {
    match o {
        Some(s) => Some(s@),
        None => None,
    }
}

} // verus!
