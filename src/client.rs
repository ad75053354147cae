//! The query client: its settings, and the steps of a query that decide rather
//! than wait on the network.
use vstd::prelude::*;
use vstd::utf8::{decode_utf8, valid_utf8};

use crate::bedrock::{
    bedrock_fields_match, bedrock_ping_packet, parse_bedrock_payload, ping_packet,
    BEDROCK_MIN_FIELDS,
};
use crate::error::McError;
use crate::frame::status_frame;
use crate::java::{
    java_status_from_tree, java_status_matches, json_accepts, status_payload, status_payload_ok,
};
use crate::json::JsonTree;
use crate::models::{BedrockStatus, JavaStatus, ServerEdition};
use crate::text::{find_char, index_of, parse_u16, split_on, text_eq, u16_text_value};

verus! {

/// Default port of the TCP protocol.
pub const JAVA_DEFAULT_PORT: u16 = 25565;

/// Default port of the UDP protocol.
pub const BEDROCK_DEFAULT_PORT: u16 = 19132;

/// Default bound on concurrent queries.
pub const DEFAULT_MAX_PARALLEL: usize = 10;

/// Default timeout of each network operation, in seconds.
pub const DEFAULT_TIMEOUT_SECS: u64 = 10;

/// Relies on `Duration::from_secs`, which returns for every input; nothing is
/// stated of the duration itself.
pub assume_specification[ core::time::Duration::from_secs ](secs: u64) -> core::time::Duration;

/// Host and port of an address: the text before the first `:` and the port
/// written after it, or the whole address and `default_port` when there is no
/// `:`. `None` when the port text is not a 16-bit unsigned integer.
pub open spec fn address_parts(a: Seq<char>, default_port: u16) -> Option<(Seq<char>, u16)> {
    match index_of(a, ':') {
        Some(i) => match u16_text_value(a.subrange(i + 1, a.len() as int)) {
            Some(p) => Some((a.take(i), p)),
            None => None,
        },
        None => Some((a, default_port)),
    }
}

/// Settings of status queries: the timeout of each network operation and the
/// bound on concurrent queries of a batch.
pub struct McClient {
    pub timeout: core::time::Duration,
    pub max_parallel: usize,
}

impl Clone for McClient {
    fn clone(&self) -> Self {
        McClient { timeout: self.timeout, max_parallel: self.max_parallel }
    }
}

impl Default for McClient {
    fn default() -> (r: Self)
        ensures
            r.max_parallel == DEFAULT_MAX_PARALLEL,
    {
        McClient {
            timeout: core::time::Duration::from_secs(DEFAULT_TIMEOUT_SECS),
            max_parallel: DEFAULT_MAX_PARALLEL,
        }
    }
}

impl McClient {
    /// A client with a ten-second timeout and at most ten concurrent queries.
    pub fn new() -> (r: Self)
        ensures
            r.max_parallel == DEFAULT_MAX_PARALLEL,
    {
        McClient {
            timeout: core::time::Duration::from_secs(DEFAULT_TIMEOUT_SECS),
            max_parallel: DEFAULT_MAX_PARALLEL,
        }
    }

    pub fn with_timeout(self, timeout: core::time::Duration) -> (r: Self)
        ensures
            r.timeout == timeout,
            r.max_parallel == self.max_parallel,
    {
        McClient { timeout, max_parallel: self.max_parallel }
    }

    pub fn with_max_parallel(self, max_parallel: usize) -> (r: Self)
        ensures
            r.timeout == self.timeout,
            r.max_parallel == max_parallel,
    {
        McClient { timeout: self.timeout, max_parallel }
    }

    /// Splits `address` into host and port; a port that is not a 16-bit
    /// unsigned integer is an invalid port.
    pub fn parse_address(address: &str, default_port: u16) -> (r: Result<(&str, u16), McError>)
        ensures
            match address_parts(address@, default_port) {
                Some((h, p)) => r matches Ok((rh, rp)) && rh@ == h && rp == p,
                None => r matches Err(McError::InvalidPort(_)),
            },
    {
        match find_char(address, ':') {
            Some(i) => {
                let n = address.unicode_len();
                let host = address.substring_char(0, i);
                let port_text = address.substring_char(i + 1, n);
                assert(host@ =~= address@.take(i as int));
                match parse_u16(port_text) {
                    Ok(p) => Ok((host, p)),
                    Err(e) => Err(McError::InvalidPort(e.message())),
                }
            },
            None => Ok((address, default_port)),
        }
    }

    /// The unconnected ping of the UDP protocol, stamped `timestamp_ms`.
    pub fn create_bedrock_ping_packet(&self, timestamp_ms: u64) -> (r: Vec<u8>)
        ensures
            r@ == ping_packet(timestamp_ms),
    {
        bedrock_ping_packet(timestamp_ms)
    }

    /// The status in the payload text of a UDP reply.
    pub fn parse_bedrock_response(&self, pong_data: &str) -> (r: Result<BedrockStatus, McError>)
        ensures
            split_on(pong_data@, ';').len() < BEDROCK_MIN_FIELDS <==> r is Err,
            r is Err ==> r->Err_0 is InvalidResponse,
            r is Ok ==> bedrock_fields_match(r->Ok_0, split_on(pong_data@, ';'), pong_data@),
    {
        parse_bedrock_payload(pong_data)
    }

    /// The JSON payload of a TCP status reply.
    pub fn parse_java_response(&self, response: &[u8]) -> (r: Result<serde_json::Value, McError>)
        ensures
            r is Ok <==> status_payload_ok(response@),
            status_frame(response@) is None ==> r is Err && r->Err_0 is InvalidResponse,
            match status_frame(response@) {
                Some((start, len)) => {
                    let b = response@.subrange(start, start + len);
                    &&& !valid_utf8(b) ==> r is Err && r->Err_0 is Utf8Error
                    &&& valid_utf8(b) && !json_accepts(decode_utf8(b)) ==> r is Err
                        && r->Err_0 is JsonError
                },
                None => true,
            },
    {
        status_payload(response)
    }

    /// The status record of the payload whose tree is `tree`, keeping `json`, the
    /// parsed payload itself, as `raw_data`.
    pub fn parse_java_json(&self, tree: &JsonTree, json: &serde_json::Value) -> (r: Result<JavaStatus, McError>)
        ensures
            r is Ok,
            java_status_matches(r->Ok_0, *tree),
            r->Ok_0.raw_data == *json,
    {
        Ok(java_status_from_tree(tree, json.clone()))
    }
}

/// The lower-case form `str::to_lowercase` gives of a text.
pub uninterp spec fn lowercase_of(s: Seq<char>) -> Seq<char>;

/// Relies on `str::to_lowercase`: the result depends on the characters alone.
#[verifier::external_body]
fn to_lowercase(s: &str) -> (r: String)
    ensures
        r@ == lowercase_of(s@),
{
    s.to_lowercase()
}

/// The protocol named by a lower-case name.
pub open spec fn edition_named(l: Seq<char>) -> Option<ServerEdition> {
    if l == "java"@ {
        Some(ServerEdition::Java)
    } else if l == "bedrock"@ {
        Some(ServerEdition::Bedrock)
    } else {
        None
    }
}

impl ServerEdition {
    /// The protocol named by `lower`, which is already in lower case.
    pub fn from_lowercase(lower: &str) -> (r: Option<ServerEdition>)
        ensures
            r == edition_named(lower@),
    {
        if text_eq(lower, "java") {
            Some(ServerEdition::Java)
        } else if text_eq(lower, "bedrock") {
            Some(ServerEdition::Bedrock)
        } else {
            None
        }
    }

    /// The protocol named by `s` in any case; another name is an invalid edition.
    pub fn parse(s: &str) -> (r: Result<ServerEdition, McError>)
        ensures
            match edition_named(lowercase_of(s@)) {
                Some(e) => r matches Ok(x) && x == e,
                None => r matches Err(McError::InvalidEdition(t)) && t@ == s@,
            },
    {
        let lower = to_lowercase(s);
        match ServerEdition::from_lowercase(lower.as_str()) {
            Some(e) => Ok(e),
            None => Err(McError::InvalidEdition(s.to_owned())),
        }
    }
}

impl std::str::FromStr for ServerEdition {
    type Err = McError;

    fn from_str(s: &str) -> Result<ServerEdition, McError> {
        ServerEdition::parse(s)
    }
}

} // verus!
