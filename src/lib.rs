//! Status queries for game servers speaking a TCP (length-prefixed, JSON payload)
//! or a UDP (fixed offsets, `;`-separated payload) status protocol.
pub mod bedrock;
pub mod client;
pub mod codec;
pub mod dns;
pub mod error;
pub mod fanout;
pub mod favicon;
pub mod frame;
pub mod java;
pub mod json;
pub mod models;
pub mod text;

pub use client::McClient;
pub use error::McError;
pub use models::{
    BedrockStatus, DnsInfo, JavaMod, JavaPlayer, JavaPlayers, JavaPlugin, JavaStatus,
    JavaVersion, ServerData, ServerEdition, ServerInfo,
};
