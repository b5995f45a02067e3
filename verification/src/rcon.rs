//! The Minecraft RCON packet format.

use vstd::prelude::*;

verus! {

/// A 32-bit integer in little-endian byte order.
pub open spec fn le_bytes(x: i32) -> Seq<u8> {
    let u = x as u32;
    seq![(u % 256) as u8, (u / 256 % 256) as u8, (u / 65536 % 256) as u8, (u / 16777216) as u8]
}

/// The 32-bit integer that four little-endian bytes hold.
pub open spec fn from_le(b0: u8, b1: u8, b2: u8, b3: u8) -> i32 {
    (b0 as u32 + 256 * (b1 as u32) + 65536 * (b2 as u32) + 16777216 * (b3 as u32)) as u32 as i32
}

/// A packet on the wire: its size (of everything after the size field), its
/// request ID, its type, its body and two zero bytes.
pub open spec fn packet_bytes(request_id: i32, packet_type: i32, body: Seq<u8>) -> Seq<u8> {
    le_bytes((body.len() + 10) as i32) + le_bytes(request_id) + le_bytes(packet_type) + body + seq![0u8, 0u8]
}

fn push_le(v: &mut Vec<u8>, x: i32)
    ensures
        final(v)@ == old(v)@ + le_bytes(x),
{
    let u = x as u32;
    v.push((u % 256) as u8);
    v.push((u / 256 % 256) as u8);
    v.push((u / 65536 % 256) as u8);
    v.push((u / 16777216) as u8);
    assert(final(v)@ =~= old(v)@ + le_bytes(x));
}

/// Encodes a request packet carrying `body`.
pub fn encode_packet(request_id: i32, packet_type: i32, body: &str) -> (r: Vec<u8>)
    requires
        crate::text::utf8(body@).len() + 10 <= i32::MAX,
    ensures
        r@ == packet_bytes(request_id, packet_type, crate::text::utf8(body@)),
{
    let bytes = body.as_bytes();
    let size = (bytes.len() + 10) as i32;
    let mut r: Vec<u8> = Vec::new();
    push_le(&mut r, size);
    push_le(&mut r, request_id);
    push_le(&mut r, packet_type);
    let ghost head = r@;
    let mut i: usize = 0;
    while i < bytes.len()
        invariant
            i <= bytes@.len(),
            r@ == head + bytes@.take(i as int),
        decreases bytes@.len() - i,
    {
        r.push(bytes[i]);
        i = i + 1;
        assert(r@ =~= head + bytes@.take(i as int));
    }
    assert(bytes@.take(bytes@.len() as int) =~= bytes@);
    r.push(0u8);
    r.push(0u8);
    assert(r@ =~= packet_bytes(request_id, packet_type, crate::text::utf8(body@)));
    r
}

/// Why an RCON exchange failed.
#[derive(Debug, PartialEq, Eq)]
pub enum RconError {
    /// The size field announced fewer than ten bytes.
    InvalidPacketSize { size: i32 },
    /// The server refused the password.
    LoginFailed,
    /// The response answers another request.
    UnexpectedResponseId { request_id: i32 },
}

pub open spec fn rcon_error_text(e: RconError) -> Seq<char> {
    match e {
        RconError::InvalidPacketSize { size } => "Invalid RCON packet size "@ + crate::text::signed_decimal(
            size as int,
        ),
        RconError::LoginFailed => "RCON login failed"@,
        RconError::UnexpectedResponseId { request_id } => "Unexpected RCON response id "@
            + crate::text::signed_decimal(request_id as int),
    }
}

impl RconError {
    pub fn message(&self) -> (m: String)
        ensures
            m@ == rcon_error_text(*self),
    {
        match self {
            RconError::InvalidPacketSize { size } => {
                let mut m = String::from_str("Invalid RCON packet size ");
                crate::text::push_signed_decimal(&mut m, *size as i64);
                m
            },
            RconError::LoginFailed => String::from_str("RCON login failed"),
            RconError::UnexpectedResponseId { request_id } => {
                let mut m = String::from_str("Unexpected RCON response id ");
                crate::text::push_signed_decimal(&mut m, *request_id as i64);
                m
            },
        }
    }
}

/// The length of the payload that follows a size field; at least ten bytes.
pub fn packet_payload_len(size_bytes: &[u8]) -> (r: Result<usize, RconError>)
    requires
        size_bytes@.len() == 4,
    ensures
        ({
            let size = from_le(size_bytes@[0], size_bytes@[1], size_bytes@[2], size_bytes@[3]);
            if size < 10 {
                r == Err::<usize, RconError>(RconError::InvalidPacketSize { size })
            } else {
                r == Ok::<usize, RconError>(size as usize)
            }
        }),
{
    let size = (size_bytes[0] as u32 + 256 * (size_bytes[1] as u32) + 65536 * (size_bytes[2] as u32)
        + 16777216 * (size_bytes[3] as u32)) as i32;
    if size < 10 {
        Err(RconError::InvalidPacketSize { size })
    } else {
        Ok(size as usize)
    }
}

/// The characters that `String::from_utf8_lossy` reads from `bytes`.
pub uninterp spec fn utf8_lossy(bytes: Seq<u8>) -> Seq<char>;

/// `String::from_utf8_lossy`: the text of valid UTF-8 unchanged; invalid
/// sequences become U+FFFD, which is not restated here.
#[verifier::external_body]
fn lossy_text(bytes: &[u8]) -> (s: String)
    ensures
        s@ == utf8_lossy(bytes@),
        vstd::utf8::valid_utf8(bytes@) ==> s@ == vstd::utf8::decode_utf8(bytes@),
{
    String::from_utf8_lossy(bytes).into_owned()
}

/// A packet read from the server.
pub struct RconPacket {
    pub request_id: i32,
    pub packet_type: i32,
    pub body: String,
}

/// The body bytes of a payload: after the ID and type, before the two zero bytes.
pub open spec fn payload_body(payload: Seq<u8>) -> Seq<u8> {
    payload.subrange(8, payload.len() - 2)
}

/// Decodes the payload of a packet (everything after its size field).
pub fn decode_payload(payload: &[u8]) -> (p: RconPacket)
    requires
        payload@.len() >= 10,
    ensures
        p.request_id == from_le(payload@[0], payload@[1], payload@[2], payload@[3]),
        p.packet_type == from_le(payload@[4], payload@[5], payload@[6], payload@[7]),
        p.body@ == utf8_lossy(payload_body(payload@)),
        vstd::utf8::valid_utf8(payload_body(payload@)) ==> p.body@ == vstd::utf8::decode_utf8(
            payload_body(payload@),
        ),
{
    let request_id = (payload[0] as u32 + 256 * (payload[1] as u32) + 65536 * (payload[2] as u32)
        + 16777216 * (payload[3] as u32)) as i32;
    let packet_type = (payload[4] as u32 + 256 * (payload[5] as u32) + 65536 * (payload[6] as u32)
        + 16777216 * (payload[7] as u32)) as i32;
    let end = payload.len() - 2;
    let mut body: Vec<u8> = Vec::new();
    let mut i: usize = 8;
    while i < end
        invariant
            8 <= i <= end,
            end == payload@.len() - 2,
            body@ == payload@.subrange(8, i as int),
        decreases end - i,
    {
        body.push(payload[i]);
        i = i + 1;
        assert(body@ =~= payload@.subrange(8, i as int));
    }
    let text = lossy_text(body.as_slice());
    RconPacket { request_id, packet_type, body: text }
}

/// Accepts a login response: it must answer the login request, and `-1`
/// means the password was refused.
pub fn check_login_response(packet: &RconPacket, request_id: i32) -> (r: Result<(), RconError>)
    ensures
        r is Ok <==> (packet.request_id != -1 && packet.request_id == request_id),
        r matches Err(e) ==> e == RconError::LoginFailed,
{
    if packet.request_id == -1 || packet.request_id != request_id {
        Err(RconError::LoginFailed)
    } else {
        Ok(())
    }
}

/// The output of a command, when the response answers the command.
pub fn check_command_response(packet: RconPacket, request_id: i32) -> (r: Result<String, RconError>)
    ensures
        packet.request_id == request_id ==> (r matches Ok(b) && b == packet.body),
        packet.request_id != request_id ==> r == Err::<String, RconError>(
            RconError::UnexpectedResponseId { request_id: packet.request_id },
        ),
{
    if packet.request_id != request_id {
        Err(RconError::UnexpectedResponseId { request_id: packet.request_id })
    } else {
        Ok(packet.body)
    }
}

/// Reading four little-endian bytes gives back the integer written.
pub proof fn lemma_le_roundtrip(x: i32)
    ensures
        from_le(le_bytes(x)[0], le_bytes(x)[1], le_bytes(x)[2], le_bytes(x)[3]) == x,
{
    let u = x as u32;
    assert(((u % 256) as u8 as u32 + 256 * ((u / 256 % 256) as u8 as u32) + 65536 * ((u / 65536 % 256) as u8
        as u32) + 16777216 * ((u / 16777216) as u8 as u32)) as u32 as i32 == x) by (bit_vector)
        requires
            u == x as u32,
    ;
}

/// A packet read back gives the request ID, type and body that were written:
/// the size field announces the rest of the packet, and decoding that rest
/// yields the same ID, type and text.
pub proof fn lemma_packet_roundtrip(request_id: i32, packet_type: i32, body: Seq<char>)
    requires
        crate::text::utf8(body).len() + 10 <= i32::MAX,
    ensures
        ({
            let p = packet_bytes(request_id, packet_type, crate::text::utf8(body));
            let payload = p.subrange(4, p.len() as int);
            &&& from_le(p[0], p[1], p[2], p[3]) == payload.len()
            &&& from_le(payload[0], payload[1], payload[2], payload[3]) == request_id
            &&& from_le(payload[4], payload[5], payload[6], payload[7]) == packet_type
            &&& vstd::utf8::decode_utf8(payload_body(payload)) == body
        }),
{
    let b = crate::text::utf8(body);
    let p = packet_bytes(request_id, packet_type, b);
    let payload = p.subrange(4, p.len() as int);
    lemma_le_roundtrip((b.len() + 10) as i32);
    lemma_le_roundtrip(request_id);
    lemma_le_roundtrip(packet_type);
    assert(payload_body(payload) =~= b);
    vstd::utf8::encode_utf8_decode_utf8(body);
}

} // verus!
