//! The framed wire protocol: handshake bytes, frame headers, request bodies.
//!
//! A frame is `[token: u64 big-endian][length: u32 little-endian][body]`.
//! A request body is the JSON array `[query_type, query, global_options]`;
//! the CONTINUE request is a fixed 15-byte frame whose body is `[2]`.
use vstd::prelude::*;
use crate::ast::{Ast, AstV};
use crate::json::{json_of, json_str, write_json, push_json_str};

verus! {

/// Query type sent to start a new request.
pub const QUERY_START: u32 = 1;

/// Query type sent to continue a partial stream.
pub const QUERY_CONTINUE: u32 = 2;

/// Query type sent to stop a stream.
pub const QUERY_STOP: u32 = 3;

/// Bytes of a frame header: token and body length.
pub const FRAME_HEADER_SIZE: usize = 12;

/// A per-request identifier minted by the connection; strictly increasing.
#[derive(Clone, Copy, Debug, PartialEq, Eq, Structural)]
pub struct Token(pub u64);

/// Read mode the server is asked to use for this connection's queries.
#[derive(Clone, Copy, Debug, PartialEq, Eq, Structural)]
pub enum ReadMode {
    Single,
    Majority,
    Outdated,
}

/// Connection-wide options sent with every request.
#[derive(Clone, Copy, Debug, PartialEq, Eq, Structural)]
pub struct GlobalOptions {
    pub read_mode: Option<ReadMode>,
}

impl Default for GlobalOptions {
    /// No option set; serializes as the empty object.
    fn default() -> (r: GlobalOptions)
        ensures
            r.read_mode is None,
    {
        GlobalOptions { read_mode: None }
    }
}

/// How long a receive is allowed to block: indefinitely (up to the
/// connection's own timeout), not at all, or for the given duration.
#[derive(Clone, Copy, Debug, PartialEq, Eq)]
pub enum Wait {
    Yes,
    No,
    For(core::time::Duration),
}

/// Wire name of a read mode.
pub open spec fn read_mode_name(m: ReadMode) -> Seq<char> {
    match m {
        ReadMode::Single => "single"@,
        ReadMode::Majority => "majority"@,
        ReadMode::Outdated => "outdated"@,
    }
}

/// JSON form of the global options: `{}` when nothing is set.
pub open spec fn global_opts_json(o: GlobalOptions) -> Seq<u8> {
    match o.read_mode {
        None => seq![0x7bu8, 0x7du8],
        Some(m) => seq![0x7bu8] + json_str("read_mode"@) + seq![0x3au8] + json_str(
            read_mode_name(m),
        ) + seq![0x7du8],
    }
}

/// Append the JSON form of the global options.
pub fn write_global_opts(o: &GlobalOptions, out: &mut Vec<u8>)
    ensures
        final(out)@ == old(out)@ + global_opts_json(*o),
{
    out.push(0x7b);
    match &o.read_mode {
        None => {},
        Some(m) => {
            push_json_str("read_mode", out);
            out.push(0x3a);
            match m {
                ReadMode::Single => push_json_str("single", out),
                ReadMode::Majority => push_json_str("majority", out),
                ReadMode::Outdated => push_json_str("outdated", out),
            }
        },
    }
    out.push(0x7d);
    assert(out@ =~= old(out)@ + global_opts_json(*o));
}

/// Body of a START request: `[1,query,opts]`.
pub open spec fn request_body_spec(q: AstV, o: GlobalOptions) -> Seq<u8> {
    seq![0x5bu8, 0x31u8, 0x2cu8] + json_of(q) + seq![0x2cu8] + global_opts_json(o) + seq![0x5du8]
}

/// Serialize a START request body.
pub fn request_body(q: &Ast, o: &GlobalOptions) -> (r: Vec<u8>)
    ensures
        r@ == request_body_spec(q@, *o),
{
    let mut out: Vec<u8> = Vec::new();
    out.push(0x5b);
    out.push(0x31);
    out.push(0x2c);
    write_json(q, &mut out);
    out.push(0x2c);
    write_global_opts(o, &mut out);
    out.push(0x5d);
    assert(out@ =~= request_body_spec(q@, *o));
    out
}

/// Big-endian bytes of a token.
pub open spec fn u64_be_bytes(x: u64) -> Seq<u8> {
    seq![
        ((x >> 56) & 0xff) as u8,
        ((x >> 48) & 0xff) as u8,
        ((x >> 40) & 0xff) as u8,
        ((x >> 32) & 0xff) as u8,
        ((x >> 24) & 0xff) as u8,
        ((x >> 16) & 0xff) as u8,
        ((x >> 8) & 0xff) as u8,
        (x & 0xff) as u8,
    ]
}

/// The token encoded by eight big-endian bytes.
pub open spec fn u64_from_be_bytes(s: Seq<u8>) -> u64
    recommends
        s.len() == 8,
{
    (((s[0] as u64) << 56) | ((s[1] as u64) << 48) | ((s[2] as u64) << 40) | ((s[3] as u64) << 32)
        | ((s[4] as u64) << 24) | ((s[5] as u64) << 16) | ((s[6] as u64) << 8) | (s[7] as u64)) as u64
}

/// Append the big-endian bytes of `x`.
pub fn push_u64_be(x: u64, out: &mut Vec<u8>)
    ensures
        final(out)@ == old(out)@ + u64_be_bytes(x),
{
    out.push(((x >> 56) & 0xff) as u8);
    out.push(((x >> 48) & 0xff) as u8);
    out.push(((x >> 40) & 0xff) as u8);
    out.push(((x >> 32) & 0xff) as u8);
    out.push(((x >> 24) & 0xff) as u8);
    out.push(((x >> 16) & 0xff) as u8);
    out.push(((x >> 8) & 0xff) as u8);
    out.push((x & 0xff) as u8);
    assert(out@ =~= old(out)@ + u64_be_bytes(x));
}

/// Little-endian bytes of a body length.
pub open spec fn u32_le_bytes(x: u32) -> Seq<u8> {
    seq![
        (x & 0xff) as u8,
        ((x >> 8) & 0xff) as u8,
        ((x >> 16) & 0xff) as u8,
        ((x >> 24) & 0xff) as u8,
    ]
}

/// Append the little-endian bytes of `x`.
pub fn push_u32_le(x: u32, out: &mut Vec<u8>)
    ensures
        final(out)@ == old(out)@ + u32_le_bytes(x),
{
    out.push((x & 0xff) as u8);
    out.push(((x >> 8) & 0xff) as u8);
    out.push(((x >> 16) & 0xff) as u8);
    out.push(((x >> 24) & 0xff) as u8);
    assert(out@ =~= old(out)@ + u32_le_bytes(x));
}

/// Big-endian bytes of a record-size prefix.
pub open spec fn u32_be_bytes(x: u32) -> Seq<u8> {
    seq![
        ((x >> 24) & 0xff) as u8,
        ((x >> 16) & 0xff) as u8,
        ((x >> 8) & 0xff) as u8,
        (x & 0xff) as u8,
    ]
}

/// The number encoded by four big-endian bytes.
pub open spec fn u32_from_be4(s: Seq<u8>) -> u32
    recommends
        s.len() == 4,
{
    (((s[0] as u32) << 24) | ((s[1] as u32) << 16) | ((s[2] as u32) << 8) | (s[3] as u32)) as u32
}

/// Append the big-endian bytes of `x`.
pub fn push_u32_be(x: u32, out: &mut Vec<u8>)
    ensures
        final(out)@ == old(out)@ + u32_be_bytes(x),
{
    out.push(((x >> 24) & 0xff) as u8);
    out.push(((x >> 16) & 0xff) as u8);
    out.push(((x >> 8) & 0xff) as u8);
    out.push((x & 0xff) as u8);
    assert(out@ =~= old(out)@ + u32_be_bytes(x));
}

pub proof fn lemma_u32_be_roundtrip(x: u32)
    ensures
        u32_from_be4(u32_be_bytes(x)) == x,
{
    let s = u32_be_bytes(x);
    assert(((((x >> 24) & 0xff) as u8 as u32) << 24) | ((((x >> 16) & 0xff) as u8 as u32) << 16)
        | ((((x >> 8) & 0xff) as u8 as u32) << 8) | ((x & 0xff) as u8 as u32) == x)
        by (bit_vector);
}

/// Model of a whole frame for the given token and body.
pub open spec fn frame_spec(token: u64, body: Seq<u8>) -> Seq<u8> {
    u64_be_bytes(token) + u32_le_bytes(body.len() as u32) + body
}

/// Frame a request body under a token.
pub fn frame(token: u64, body: &Vec<u8>) -> (r: Vec<u8>)
    requires
        body@.len() <= u32::MAX,
    ensures
        r@ == frame_spec(token, body@),
{
    let mut out: Vec<u8> = Vec::new();
    push_u64_be(token, &mut out);
    push_u32_le(body.len() as u32, &mut out);
    let mut b = body.clone();
    proof {
        assert(b@ == body@);
    }
    out.append(&mut b);
    assert(out@ =~= frame_spec(token, body@));
    out
}

/// The fixed body of a CONTINUE request: `[2]`.
pub open spec fn continue_body_spec() -> Seq<u8> {
    seq![0x5bu8, 0x32u8, 0x5du8]
}

/// The fixed 15-byte CONTINUE frame for a token.
pub fn continue_frame(token: u64) -> (r: Vec<u8>)
    ensures
        r@ == u64_be_bytes(token) + seq![3u8, 0u8, 0u8, 0u8] + continue_body_spec(),
        r@.len() == 15,
{
    let mut out: Vec<u8> = Vec::new();
    push_u64_be(token, &mut out);
    out.push(3);
    out.push(0);
    out.push(0);
    out.push(0);
    out.push(0x5b);
    out.push(0x32);
    out.push(0x5d);
    assert(out@ =~= u64_be_bytes(token) + seq![3u8, 0u8, 0u8, 0u8] + continue_body_spec());
    out
}

/// Fields of a frame header: the token and the body length.
pub open spec fn header_token(h: Seq<u8>) -> u64
    recommends
        h.len() == 12,
{
    u64_from_be_bytes(h.subrange(0, 8))
}

/// Parse a 12-byte frame header into its token and body length.
pub fn parse_header(h: &[u8]) -> (r: (u64, u32))
    requires
        h@.len() == 12,
    ensures
        r.0 == header_token(h@),
        h@.subrange(8, 12) == u32_le_bytes(r.1),
{
    let token: u64 = ((h[0] as u64) << 56) | ((h[1] as u64) << 48) | ((h[2] as u64) << 40) | ((
    h[3] as u64) << 32) | ((h[4] as u64) << 24) | ((h[5] as u64) << 16) | ((h[6] as u64) << 8) | (
    h[7] as u64);
    let size: u32 = (h[8] as u32) | ((h[9] as u32) << 8) | ((h[10] as u32) << 16) | ((h[11] as u32)
        << 24);
    proof {
        let s = h@.subrange(0, 8);
        assert(s[0] == h@[0] && s[1] == h@[1] && s[2] == h@[2] && s[3] == h@[3] && s[4] == h@[4]
            && s[5] == h@[5] && s[6] == h@[6] && s[7] == h@[7]);
        assert(token == (((s[0] as u64) << 56) | ((s[1] as u64) << 48) | ((s[2] as u64) << 40) | ((
        s[3] as u64) << 32) | ((s[4] as u64) << 24) | ((s[5] as u64) << 16) | ((s[6] as u64) << 8)
            | (s[7] as u64)) as u64);
    }
    proof {
        lemma_le4_roundtrip(h@[8], h@[9], h@[10], h@[11]);
        assert(h@.subrange(8, 12) =~= seq![h@[8], h@[9], h@[10], h@[11]]);
        assert(u32_le_bytes(size) =~= seq![h@[8], h@[9], h@[10], h@[11]]);
    }
    (token, size)
}

proof fn lemma_le4_roundtrip(a: u8, b: u8, c: u8, d: u8)
    ensures
        u32_le_bytes(
            ((a as u32) | ((b as u32) << 8) | ((c as u32) << 16) | ((d as u32) << 24)) as u32,
        ) == seq![a, b, c, d],
{
    assert(((((a as u32) | ((b as u32) << 8) | ((c as u32) << 16) | ((d as u32) << 24)) as u32)
        & 0xff) as u8 == a) by (bit_vector);
    assert((((((a as u32) | ((b as u32) << 8) | ((c as u32) << 16) | ((d as u32) << 24)) as u32)
        >> 8) & 0xff) as u8 == b) by (bit_vector);
    assert((((((a as u32) | ((b as u32) << 8) | ((c as u32) << 16) | ((d as u32) << 24)) as u32)
        >> 16) & 0xff) as u8 == c) by (bit_vector);
    assert((((((a as u32) | ((b as u32) << 8) | ((c as u32) << 16) | ((d as u32) << 24)) as u32)
        >> 24) & 0xff) as u8 == d) by (bit_vector);
    assert(u32_le_bytes(
        ((a as u32) | ((b as u32) << 8) | ((c as u32) << 16) | ((d as u32) << 24)) as u32,
    ) =~= seq![a, b, c, d]);
}

/// Model of the 12-byte handshake request: protocol version and JSON
/// protocol selector, both little-endian.
pub open spec fn handshake_request_spec() -> Seq<u8> {
    seq![
        0x20u8,
        0x2du8,
        0x0cu8,
        0x40u8,
        0x00u8,
        0x00u8,
        0x00u8,
        0x00u8,
        0xc7u8,
        0x70u8,
        0x69u8,
        0x7eu8,
    ]
}

/// The 12-byte magic the driver sends to open a connection.
pub fn handshake_request() -> (r: Vec<u8>)
    ensures
        r@ == handshake_request_spec(),
{
    let mut out: Vec<u8> = Vec::new();
    out.push(0x20);
    out.push(0x2d);
    out.push(0x0c);
    out.push(0x40);
    out.push(0x00);
    out.push(0x00);
    out.push(0x00);
    out.push(0x00);
    out.push(0xc7);
    out.push(0x70);
    out.push(0x69);
    out.push(0x7e);
    assert(out@ =~= handshake_request_spec());
    out
}

/// Model of the reply that closes a successful handshake: `SUCCESS\0`.
pub open spec fn handshake_success_spec() -> Seq<u8> {
    seq![0x53u8, 0x55u8, 0x43u8, 0x43u8, 0x45u8, 0x53u8, 0x53u8, 0x00u8]
}

/// Whether the 8-byte handshake reply is the success marker.
pub fn handshake_reply_ok(reply: &[u8]) -> (r: bool)
    ensures
        r == (reply@ == handshake_success_spec()),
{
    if reply.len() != 8 {
        return false;
    }
    let ok = reply[0] == 0x53 && reply[1] == 0x55 && reply[2] == 0x43 && reply[3] == 0x43
        && reply[4] == 0x45 && reply[5] == 0x53 && reply[6] == 0x53 && reply[7] == 0x00;
    proof {
        if ok {
            assert(reply@ =~= handshake_success_spec());
        }
    }
    ok
}

} // verus!
