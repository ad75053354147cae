//! Packets of the TCP status protocol: the two requests a client sends, the
//! accumulation of the streamed reply, and the check of the reply's framing.
use vstd::prelude::*;
use vstd::string::StringSliceAdditionalSpecFns;

use crate::codec::{decode_var_int, read_var_int, var_int_bytes, write_var_int, write_string};
use crate::error::McError;

verus! {

/// Protocol version announced in the handshake.
pub const HANDSHAKE_PROTOCOL: i32 = 47;

/// Next-state value of the handshake that asks for the status.
pub const NEXT_STATE_STATUS: i32 = 1;

/// Big-endian bytes of a 16-bit integer.
pub open spec fn be16(v: u16) -> Seq<u8> {
    seq![(v / 256) as u8, (v % 256) as u8]
}

/// `body` preceded by its length as a variable-length integer.
pub open spec fn framed(body: Seq<u8>) -> Seq<u8> {
    var_int_bytes((body.len() % 0x1_0000_0000) as u32) + body
}

/// Body of the handshake packet: packet id 0, protocol version, host as a
/// length-prefixed string, port, next state.
pub open spec fn handshake_body(host: Seq<u8>, port: u16) -> Seq<u8> {
    var_int_bytes(0) + var_int_bytes(HANDSHAKE_PROTOCOL as u32) + var_int_bytes(
        (host.len() % 0x1_0000_0000) as u32,
    ) + host + be16(port) + var_int_bytes(NEXT_STATE_STATUS as u32)
}

/// Appends the length prefix of `body`, then `body`.
fn write_framed(packet: &mut Vec<u8>, body: &Vec<u8>)
    ensures
        final(packet)@ == old(packet)@ + framed(body@),
{
    let len: u64 = body.len() as u64 % 0x1_0000_0000u64;
    let bits: i32 = if len < 0x8000_0000 {
        len as i32
    } else {
        (len as i64 - 0x1_0000_0000i64) as i32
    };
    write_var_int(packet, bits);
    let ghost mid = packet@;
    packet.extend_from_slice(body.as_slice());
    assert(packet@ =~= mid + body@);
}

/// The framed handshake that opens a status exchange with `host:port`.
pub fn handshake_packet(host: &str, port: u16) -> (r: Vec<u8>)
    ensures
        r@ == framed(handshake_body(host.spec_bytes(), port)),
{
    let mut body: Vec<u8> = Vec::with_capacity(64);
    write_var_int(&mut body, 0);
    write_var_int(&mut body, HANDSHAKE_PROTOCOL);
    write_string(&mut body, host);
    body.push((port / 256) as u8);
    body.push((port % 256) as u8);
    write_var_int(&mut body, NEXT_STATE_STATUS);
    assert(body@ =~= handshake_body(host.spec_bytes(), port));
    let mut packet: Vec<u8> = Vec::new();
    write_framed(&mut packet, &body);
    assert(packet@ =~= framed(handshake_body(host.spec_bytes(), port)));
    packet
}

/// The framed status request: packet id 0 with an empty body.
pub fn status_request_packet() -> (r: Vec<u8>)
    ensures
        r@ == framed(var_int_bytes(0)),
        r@ == seq![1u8, 0u8],
{
    let mut body: Vec<u8> = Vec::with_capacity(5);
    write_var_int(&mut body, 0);
    let mut packet: Vec<u8> = Vec::new();
    write_framed(&mut packet, &body);
    assert(packet@ =~= framed(var_int_bytes(0)));
    assert(var_int_bytes(0) =~= seq![0u8]);
    assert(var_int_bytes(1) =~= seq![1u8]);
    assert(packet@ =~= seq![1u8, 0u8]);
    packet
}

/// Number of bytes a reply starting with `s` occupies, length prefix included,
/// when that prefix can be read. A negative declared length counts as an empty
/// body, so that reading stops and the framing check rejects the reply.
pub open spec fn declared_end(s: Seq<u8>) -> Option<int> {
    match decode_var_int(s) {
        Ok((len, n)) => Some(
            if len < 0 {
                n as int
            } else {
                n + len
            },
        ),
        Err(_) => None,
    }
}

/// The bytes of a reply received so far, and once known the number of bytes
/// the whole packet occupies.
pub struct ResponseBuffer {
    pub data: Vec<u8>,
    pub expected: Option<usize>,
}

impl ResponseBuffer {
    /// An empty buffer whose packet length is not known yet.
    pub fn new() -> (r: Self)
        ensures
            r.data@.len() == 0,
            r.expected is None,
    {
        ResponseBuffer { data: Vec::with_capacity(1024), expected: None }
    }

    /// Whether the whole packet has arrived.
    pub open spec fn spec_complete(&self) -> bool {
        match self.expected {
            Some(e) => self.data@.len() >= e,
            None => false,
        }
    }

    /// Adds the bytes of one read. Until the packet length is known, the length
    /// prefix is tried again after every read; once read it is kept. Returns
    /// whether the whole packet has arrived.
    pub fn push_chunk(&mut self, chunk: &[u8]) -> (done: bool)
        ensures
            final(self).data@ == old(self).data@ + chunk@,
            final(self).expected == (if old(self).expected is None {
                match declared_end(final(self).data@) {
                    Some(e) => Some(e as usize),
                    None => None,
                }
            } else {
                old(self).expected
            }),
            done == final(self).spec_complete(),
    {
        self.data.extend_from_slice(chunk);
        if self.expected.is_none() {
            let mut pos: usize = 0;
            assert(self.data@.subrange(0, self.data@.len() as int) =~= self.data@);
            match read_var_int(self.data.as_slice(), &mut pos) {
                Ok(len) => {
                    if len < 0 {
                        self.expected = Some(pos);
                    } else {
                        self.expected = Some(pos + len as usize);
                    }
                },
                Err(_) => {},
            }
        }
        match self.expected {
            Some(e) => self.data.len() >= e,
            None => false,
        }
    }

    /// The bytes received once the whole packet has arrived; a stream that
    /// ended before that is an invalid response.
    pub fn into_response(self) -> (r: Result<Vec<u8>, McError>)
        ensures
            r is Ok <==> self.spec_complete(),
            r is Err ==> r->Err_0 is InvalidResponse,
            r is Ok ==> r->Ok_0@ == self.data@,
    {
        match self.expected {
            Some(e) => if self.data.len() >= e {
                Ok(self.data)
            } else {
                Err(McError::InvalidResponse("Incomplete packet".to_owned()))
            },
            None => if self.data.len() == 0 {
                Err(McError::InvalidResponse("No response from server".to_owned()))
            } else {
                Err(McError::InvalidResponse("Incomplete packet".to_owned()))
            },
        }
    }
}

/// Where the JSON text of a status reply lies: packet length, packet id 0, JSON
/// length, then the text. The packet must fit in the reply and the text must
/// fit in the bytes received. Gives the start and the length of the text.
pub open spec fn status_frame(r: Seq<u8>) -> Option<(int, int)> {
    match decode_var_int(r) {
        Ok((plen, n1)) => if plen < 0 || n1 + plen > r.len() {
            None
        } else {
            match decode_var_int(r.subrange(n1 as int, r.len() as int)) {
                Ok((id, n2)) => if id != 0 {
                    None
                } else {
                    match decode_var_int(r.subrange((n1 + n2) as int, r.len() as int)) {
                        Ok((jlen, n3)) => if jlen < 0 || n1 + n2 + n3 + jlen > r.len() {
                            None
                        } else {
                            Some(((n1 + n2 + n3) as int, jlen as int))
                        },
                        Err(_) => None,
                    }
                },
                Err(_) => None,
            }
        },
        Err(_) => None,
    }
}

/// The JSON bytes of a status reply, or an invalid response when its framing is
/// wrong.
pub fn parse_status_frame(response: &[u8]) -> (r: Result<Vec<u8>, McError>)
    ensures
        status_frame(response@) is None <==> r is Err,
        r is Err ==> r->Err_0 is InvalidResponse,
        match status_frame(response@) {
            Some((start, len)) => r is Ok && r->Ok_0@ == response@.subrange(start, start + len),
            None => true,
        },
{
    let mut pos: usize = 0;
    assert(response@.subrange(0, response@.len() as int) =~= response@);
    let packet_length = match read_var_int(response, &mut pos) {
        Ok(v) => v,
        Err(_) => {
            return Err(McError::InvalidResponse("Failed to read packet length".to_owned()));
        },
    };
    if packet_length < 0 || packet_length as usize > response.len() - pos {
        return Err(McError::InvalidResponse("Incomplete packet".to_owned()));
    }
    let packet_id = match read_var_int(response, &mut pos) {
        Ok(v) => v,
        Err(_) => {
            return Err(McError::InvalidResponse("Failed to read packet ID".to_owned()));
        },
    };
    if packet_id != 0 {
        return Err(McError::InvalidResponse("Unexpected packet ID".to_owned()));
    }
    let json_length = match read_var_int(response, &mut pos) {
        Ok(v) => v,
        Err(_) => {
            return Err(McError::InvalidResponse("Failed to read JSON length".to_owned()));
        },
    };
    if json_length < 0 || json_length as usize > response.len() - pos {
        return Err(McError::InvalidResponse("JSON data truncated".to_owned()));
    }
    let end = pos + json_length as usize;
    let mut json: Vec<u8> = Vec::with_capacity(json_length as usize);
    let mut i = pos;
    while i < end
        invariant
            pos <= i <= end,
            end <= response@.len(),
            json@ == response@.subrange(pos as int, i as int),
        decreases end - i,
    {
        json.push(response[i]);
        i = i + 1;
        assert(json@ =~= response@.subrange(pos as int, i as int));
    }
    Ok(json)
}

} // verus!
