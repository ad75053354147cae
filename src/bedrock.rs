//! Packets of the UDP status protocol: the unconnected ping and the parsing of
//! the reply.
use vstd::prelude::*;
use vstd::utf8::{decode_utf8, valid_utf8};

use crate::error::McError;
use crate::models::{opt_text, BedrockStatus};
use crate::text::{split_on, split_text, views};

verus! {

/// Number of header bytes in front of the reply's payload.
pub const BEDROCK_HEADER_LEN: usize = 35;

/// Fewest `;`-separated fields a reply payload must have.
pub const BEDROCK_MIN_FIELDS: usize = 6;

/// The fixed sequence that marks an unconnected ping.
pub open spec fn ping_magic() -> Seq<u8> {
    seq![0x00u8, 0xFF, 0xFF, 0x00, 0xFE, 0xFE, 0xFE, 0xFE, 0xFD, 0xFD, 0xFD, 0xFD, 0x12, 0x34, 0x56, 0x78]
}

/// Big-endian bytes of a 64-bit integer.
pub open spec fn be64(v: u64) -> Seq<u8> {
    Seq::new(8, |i: int| ((v as int / pow256(7 - i)) % 256) as u8)
}

pub open spec fn pow256(k: int) -> int
    decreases k,
{
    if k <= 0 {
        1
    } else {
        256 * pow256(k - 1)
    }
}

/// The unconnected ping sent at `timestamp_ms`: id 0x01, the timestamp, the
/// magic sequence, eight zero bytes of client id.
pub open spec fn ping_packet(timestamp_ms: u64) -> Seq<u8> {
    seq![0x01u8] + be64(timestamp_ms) + ping_magic() + Seq::new(8, |i: int| 0u8)
}

/// The unconnected ping carrying `timestamp_ms` (milliseconds since the epoch).
pub fn bedrock_ping_packet(timestamp_ms: u64) -> (r: Vec<u8>)
    ensures
        r@ == ping_packet(timestamp_ms),
{
    let mut p: Vec<u8> = Vec::with_capacity(BEDROCK_HEADER_LEN);
    p.push(0x01);
    let mut k: usize = 0;
    let mut div: u64 = 0x0100_0000_0000_0000;
    assert(pow256(7) == 0x0100_0000_0000_0000) by {
        reveal_with_fuel(pow256, 8);
    }
    while k < 8
        invariant
            k <= 8,
            p@.len() == 1 + k,
            p@[0] == 0x01u8,
            forall|j: int| 1 <= j < 1 + k ==> p@[j] == be64(timestamp_ms)[j - 1],
            div as int == pow256(7 - k),
        decreases 8 - k,
    {
        assert(pow256(7 - k) >= 1) by {
            reveal_with_fuel(pow256, 8);
        }
        p.push(((timestamp_ms / div) % 256) as u8);
        if k < 7 {
            assert(pow256(7 - k) == 256 * pow256(7 - k - 1));
            div = div / 256;
        }
        k = k + 1;
    }
    let magic: [u8; 16] = [0x00, 0xFF, 0xFF, 0x00, 0xFE, 0xFE, 0xFE, 0xFE, 0xFD, 0xFD, 0xFD, 0xFD, 0x12, 0x34, 0x56, 0x78];
    let mut m: usize = 0;
    while m < 16
        invariant
            m <= 16,
            p@.len() == 9 + m,
            p@[0] == 0x01u8,
            forall|j: int| 1 <= j < 9 ==> p@[j] == be64(timestamp_ms)[j - 1],
            forall|j: int| 9 <= j < 9 + m ==> p@[j] == ping_magic()[j - 9],
            magic@ == ping_magic(),
        decreases 16 - m,
    {
        p.push(magic[m]);
        m = m + 1;
    }
    let mut z: usize = 0;
    while z < 8
        invariant
            z <= 8,
            p@.len() == 25 + z,
            p@[0] == 0x01u8,
            forall|j: int| 1 <= j < 9 ==> p@[j] == be64(timestamp_ms)[j - 1],
            forall|j: int| 9 <= j < 25 ==> p@[j] == ping_magic()[j - 9],
            forall|j: int| 25 <= j < 25 + z ==> p@[j] == 0u8,
        decreases 8 - z,
    {
        p.push(0);
        z = z + 1;
    }
    assert(p@ =~= ping_packet(timestamp_ms));
    p
}

/// Field `i` of `p`, or empty text when there are fewer fields.
pub open spec fn field_or_empty(p: Seq<Seq<char>>, i: int) -> Seq<char> {
    if i < p.len() {
        p[i]
    } else {
        Seq::empty()
    }
}

/// Field `i` of `p`, when there is one.
pub open spec fn field_opt(p: Seq<Seq<char>>, i: int) -> Option<Seq<char>> {
    if i < p.len() {
        Some(p[i])
    } else {
        None
    }
}

/// Whether `r` holds the fields `p` of the payload `text` by position.
pub open spec fn bedrock_fields_match(r: BedrockStatus, p: Seq<Seq<char>>, text: Seq<char>) -> bool {
    &&& r.edition@ == p[0]
    &&& r.motd@ == p[1]
    &&& r.protocol_version@ == p[2]
    &&& r.version@ == p[3]
    &&& r.online_players@ == p[4]
    &&& r.max_players@ == p[5]
    &&& r.server_uid@ == field_or_empty(p, 6)
    &&& r.motd2@ == field_or_empty(p, 7)
    &&& r.game_mode@ == field_or_empty(p, 8)
    &&& r.game_mode_numeric@ == field_or_empty(p, 9)
    &&& r.port_ipv4@ == field_or_empty(p, 10)
    &&& r.port_ipv6@ == field_or_empty(p, 11)
    &&& opt_text(r.map) == field_opt(p, 12)
    &&& opt_text(r.software) == field_opt(p, 13)
    &&& r.raw_data@ == text
}

/// Field `i`, or empty text.
fn take_field(parts: &Vec<String>, i: usize) -> (r: String)
    ensures
        r@ == field_or_empty(views(parts@), i as int),
{
    if i < parts.len() {
        assert(views(parts@)[i as int] == parts@[i as int]@);
        parts[i].clone()
    } else {
        String::new()
    }
}

/// Field `i`, when there is one.
fn take_field_opt(parts: &Vec<String>, i: usize) -> (r: Option<String>)
    ensures
        opt_text(r) == field_opt(views(parts@), i as int),
{
    if i < parts.len() {
        assert(views(parts@)[i as int] == parts@[i as int]@);
        Some(parts[i].clone())
    } else {
        None
    }
}

/// The status in a reply payload: its `;`-separated fields by position. Fewer
/// than six fields is an invalid response.
pub fn parse_bedrock_payload(pong_data: &str) -> (r: Result<BedrockStatus, McError>)
    ensures
        split_on(pong_data@, ';').len() < BEDROCK_MIN_FIELDS <==> r is Err,
        r is Err ==> r->Err_0 is InvalidResponse,
        r is Ok ==> bedrock_fields_match(r->Ok_0, split_on(pong_data@, ';'), pong_data@),
{
    let parts = split_text(pong_data, ';');
    if parts.len() < BEDROCK_MIN_FIELDS {
        return Err(McError::InvalidResponse("Invalid Bedrock response".to_owned()));
    }
    Ok(BedrockStatus {
        edition: parts[0].clone(),
        motd: parts[1].clone(),
        protocol_version: parts[2].clone(),
        version: parts[3].clone(),
        online_players: parts[4].clone(),
        max_players: parts[5].clone(),
        server_uid: take_field(&parts, 6),
        motd2: take_field(&parts, 7),
        game_mode: take_field(&parts, 8),
        game_mode_numeric: take_field(&parts, 9),
        port_ipv4: take_field(&parts, 10),
        port_ipv6: take_field(&parts, 11),
        map: take_field_opt(&parts, 12),
        software: take_field_opt(&parts, 13),
        raw_data: pong_data.to_owned(),
    })
}

/// The text `String::from_utf8_lossy` makes of `bytes`.
pub uninterp spec fn lossy_text(bytes: Seq<u8>) -> Seq<char>;

/// Relies on `String::from_utf8_lossy`: invalid sequences are replaced, and
/// valid UTF-8 comes back unchanged.
#[verifier::external_body]
fn utf8_lossy(bytes: &[u8]) -> (r: String)
    ensures
        r@ == lossy_text(bytes@),
        valid_utf8(bytes@) ==> r@ == decode_utf8(bytes@),
{
    String::from_utf8_lossy(bytes).to_string()
}

/// The status in a whole reply datagram: a reply shorter than the header is an
/// invalid response; otherwise the bytes after the header are read as text,
/// invalid sequences replaced, and parsed.
pub fn parse_bedrock_reply(reply: &[u8]) -> (r: Result<BedrockStatus, McError>)
    ensures
        reply@.len() < BEDROCK_HEADER_LEN ==> r is Err && r->Err_0 is InvalidResponse,
        reply@.len() >= BEDROCK_HEADER_LEN ==> {
            let text = lossy_text(reply@.subrange(BEDROCK_HEADER_LEN as int, reply@.len() as int));
            &&& (split_on(text, ';').len() < BEDROCK_MIN_FIELDS <==> r is Err)
            &&& (r is Err ==> r->Err_0 is InvalidResponse)
            &&& (r is Ok ==> bedrock_fields_match(r->Ok_0, split_on(text, ';'), text))
        },
{
    if reply.len() < BEDROCK_HEADER_LEN {
        return Err(McError::InvalidResponse("Response too short".to_owned()));
    }
    let mut payload: Vec<u8> = Vec::with_capacity(reply.len() - BEDROCK_HEADER_LEN);
    let mut i: usize = BEDROCK_HEADER_LEN;
    while i < reply.len()
        invariant
            BEDROCK_HEADER_LEN <= i <= reply@.len(),
            payload@ == reply@.subrange(BEDROCK_HEADER_LEN as int, i as int),
        decreases reply.len() - i,
    {
        payload.push(reply[i]);
        i = i + 1;
        assert(payload@ =~= reply@.subrange(BEDROCK_HEADER_LEN as int, i as int));
    }
    let text = utf8_lossy(payload.as_slice());
    parse_bedrock_payload(text.as_str())
}

} // verus!
