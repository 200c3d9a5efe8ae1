//! Frames: a command as a self-delimiting run of bytes, in network byte order.
//!
//! `[opcode:16][command_id:64][ttl_ms:32][direction:8][correlation_id:64][payload_len:32][payload]`

use vstd::prelude::*;
use crate::command::{Command, CommandView, Direction, Opcode, MAX_PAYLOAD};

verus! {

/// Number of bytes before the payload.
pub const HEADER_LEN: usize = 27;

/// Byte `k` of `x`, counted from the least significant one.
pub open spec fn byte_of(x: u64, k: u64) -> u8 {
    ((x >> (8 * k)) & 0xff) as u8
}

/// The 16-bit number whose big-endian bytes stand at `at`.
pub open spec fn be16_at(s: Seq<u8>, at: int) -> u16 {
    ((s[at] as u16) << 8) | (s[at + 1] as u16)
}

/// The 32-bit number whose big-endian bytes stand at `at`.
pub open spec fn be32_at(s: Seq<u8>, at: int) -> u32 {
    ((s[at] as u32) << 24) | ((s[at + 1] as u32) << 16) | ((s[at + 2] as u32) << 8) | (s[at + 3] as u32)
}

/// The 64-bit number whose big-endian bytes stand at `at`.
pub open spec fn be64_at(s: Seq<u8>, at: int) -> u64 {
    ((s[at] as u64) << 56) | ((s[at + 1] as u64) << 48) | ((s[at + 2] as u64) << 40) | ((s[at + 3] as u64) << 32)
        | ((s[at + 4] as u64) << 24) | ((s[at + 5] as u64) << 16) | ((s[at + 6] as u64) << 8) | (s[at + 7] as u64)
}

/// The header of the frame of `c`.
pub open spec fn header(c: CommandView) -> Seq<u8> {
    let op = c.opcode.code() as u64;
    let id = c.command_id;
    let ttl = c.ttl_ms as u64;
    let corr = c.correlation_id;
    let len = c.payload.len() as u64;
    seq![
        byte_of(op, 1), byte_of(op, 0),
        byte_of(id, 7), byte_of(id, 6), byte_of(id, 5), byte_of(id, 4),
        byte_of(id, 3), byte_of(id, 2), byte_of(id, 1), byte_of(id, 0),
        byte_of(ttl, 3), byte_of(ttl, 2), byte_of(ttl, 1), byte_of(ttl, 0),
        c.direction.code(),
        byte_of(corr, 7), byte_of(corr, 6), byte_of(corr, 5), byte_of(corr, 4),
        byte_of(corr, 3), byte_of(corr, 2), byte_of(corr, 1), byte_of(corr, 0),
        byte_of(len, 3), byte_of(len, 2), byte_of(len, 1), byte_of(len, 0),
    ]
}

/// The frame of `c`: its header, then its payload.
pub open spec fn frame(c: CommandView) -> Seq<u8> {
    header(c) + c.payload
}

/// What the front of a byte stream holds.
pub ghost enum Parsed {
    /// A whole frame of a known opcode that is still valid.
    Complete { command: CommandView, consumed: int },
    /// The front of a frame; the rest has not arrived.
    NeedMoreData,
    /// Bytes that are the front of no frame.
    Malformed,
    /// A whole frame whose opcode is not known.
    UnknownOpcode { code: u16, command_id: u64, consumed: int },
    /// A whole request whose ttl was used up on arrival.
    TtlExpired { command_id: u64, consumed: int },
}

/// What decoding the front of `s` yields.
pub open spec fn parse(s: Seq<u8>) -> Parsed {
    if s.len() < HEADER_LEN {
        Parsed::NeedMoreData
    } else {
        let code = be16_at(s, 0);
        let command_id = be64_at(s, 2);
        let ttl_ms = be32_at(s, 10);
        let dir = s[14];
        let correlation_id = be64_at(s, 15);
        let len = be32_at(s, 23);
        let consumed = HEADER_LEN + len;
        if dir > 1 || (dir == 0 && correlation_id != 0) || len > MAX_PAYLOAD {
            Parsed::Malformed
        } else if s.len() < consumed {
            Parsed::NeedMoreData
        } else {
            match Opcode::from_code(code) {
                None => Parsed::UnknownOpcode { code, command_id, consumed },
                Some(opcode) => if dir == 0 && ttl_ms == 0 {
                    Parsed::TtlExpired { command_id, consumed }
                } else {
                    Parsed::Complete {
                        command: CommandView {
                            opcode,
                            command_id,
                            ttl_ms,
                            direction: if dir == 0 { Direction::Request } else { Direction::Response },
                            correlation_id,
                            payload: s.subrange(HEADER_LEN as int, consumed),
                        },
                        consumed,
                    }
                },
            }
        }
    }
}

/// The outcome of decoding the front of a byte stream.
#[derive(Debug, PartialEq, Eq)]
pub enum Decoded {
    Complete { command: Command, consumed: usize },
    NeedMoreData,
    Malformed,
    UnknownOpcode { code: u16, command_id: u64, consumed: usize },
    TtlExpired { command_id: u64, consumed: usize },
}

impl View for Decoded {
    type V = Parsed;

    open spec fn view(&self) -> Parsed {
        match *self {
            Decoded::Complete { command, consumed } => Parsed::Complete { command: command@, consumed: consumed as int },
            Decoded::NeedMoreData => Parsed::NeedMoreData,
            Decoded::Malformed => Parsed::Malformed,
            Decoded::UnknownOpcode { code, command_id, consumed } => Parsed::UnknownOpcode {
                code,
                command_id,
                consumed: consumed as int,
            },
            Decoded::TtlExpired { command_id, consumed } => Parsed::TtlExpired { command_id, consumed: consumed as int },
        }
    }
}

fn byte(x: u64, k: u64) -> (b: u8)
    requires
        k < 8,
    ensures
        b == byte_of(x, k),
{
    ((x >> (8 * k)) & 0xff) as u8
}

fn read16(buf: &[u8], at: usize) -> (r: u16)
    requires
        at + 2 <= buf@.len(),
    ensures
        r == be16_at(buf@, at as int),
{
    ((buf[at] as u16) << 8) | (buf[at + 1] as u16)
}

fn read32(buf: &[u8], at: usize) -> (r: u32)
    requires
        at + 4 <= buf@.len(),
    ensures
        r == be32_at(buf@, at as int),
{
    ((buf[at] as u32) << 24) | ((buf[at + 1] as u32) << 16) | ((buf[at + 2] as u32) << 8) | (buf[at + 3] as u32)
}

fn read64(buf: &[u8], at: usize) -> (r: u64)
    requires
        at + 8 <= buf@.len(),
    ensures
        r == be64_at(buf@, at as int),
{
    ((buf[at] as u64) << 56) | ((buf[at + 1] as u64) << 48) | ((buf[at + 2] as u64) << 40) | ((buf[at + 3] as u64) << 32)
        | ((buf[at + 4] as u64) << 24) | ((buf[at + 5] as u64) << 16) | ((buf[at + 6] as u64) << 8) | (buf[at + 7] as u64)
}

/// Serializes `c` to its frame.
pub fn encode(c: &Command) -> (out: Vec<u8>)
    requires
        c.wf(),
    ensures
        out@ == frame(c@),
        out@.len() == HEADER_LEN + c@.payload.len(),
{
    let op: u64 = c.opcode.to_wire() as u64;
    let id: u64 = c.command_id;
    let ttl: u64 = c.ttl_ms as u64;
    let corr: u64 = c.correlation_id;
    let len: u64 = c.payload.len() as u64;
    let dir: u8 = match c.direction {
        Direction::Request => 0,
        Direction::Response => 1,
    };
    let mut out: Vec<u8> = vec![
        byte(op, 1), byte(op, 0),
        byte(id, 7), byte(id, 6), byte(id, 5), byte(id, 4),
        byte(id, 3), byte(id, 2), byte(id, 1), byte(id, 0),
        byte(ttl, 3), byte(ttl, 2), byte(ttl, 1), byte(ttl, 0),
        dir,
        byte(corr, 7), byte(corr, 6), byte(corr, 5), byte(corr, 4),
        byte(corr, 3), byte(corr, 2), byte(corr, 1), byte(corr, 0),
        byte(len, 3), byte(len, 2), byte(len, 1), byte(len, 0),
    ];
    assert(out@ =~= header(c@));
    let mut i: usize = 0;
    while i < c.payload.len()
        invariant
            i <= c.payload.len(),
            out@ == header(c@) + c.payload@.take(i as int),
        decreases c.payload.len() - i,
    {
        out.push(c.payload[i]);
        assert(header(c@) + c.payload@.take(i + 1) =~= (header(c@) + c.payload@.take(i as int)).push(c.payload@[i as int]));
        i += 1;
    }
    assert(c.payload@.take(c.payload.len() as int) =~= c.payload@);
    out
}

/// Decodes the front of `buf`.
pub fn decode(buf: &[u8]) -> (r: Decoded)
    ensures
        r@ == parse(buf@),
{
    if buf.len() < HEADER_LEN {
        return Decoded::NeedMoreData;
    }
    let code: u16 = read16(buf, 0);
    let command_id: u64 = read64(buf, 2);
    let ttl_ms: u32 = read32(buf, 10);
    let dir: u8 = buf[14];
    let correlation_id: u64 = read64(buf, 15);
    let len: u32 = read32(buf, 23);
    if dir > 1 || (dir == 0 && correlation_id != 0) || len as usize > MAX_PAYLOAD {
        return Decoded::Malformed;
    }
    let consumed: usize = HEADER_LEN + len as usize;
    if buf.len() < consumed {
        return Decoded::NeedMoreData;
    }
    match Opcode::from_wire(code) {
        None => Decoded::UnknownOpcode { code, command_id, consumed },
        Some(opcode) => {
            if dir == 0 && ttl_ms == 0 {
                Decoded::TtlExpired { command_id, consumed }
            } else {
                let mut payload: Vec<u8> = Vec::new();
                let mut i: usize = HEADER_LEN;
                while i < consumed
                    invariant
                        HEADER_LEN <= i <= consumed <= buf@.len(),
                        payload@ == buf@.subrange(HEADER_LEN as int, i as int),
                    decreases consumed - i,
                {
                    payload.push(buf[i]);
                    assert(buf@.subrange(HEADER_LEN as int, i + 1) =~= buf@.subrange(HEADER_LEN as int, i as int).push(
                        buf@[i as int],
                    ));
                    i += 1;
                }
                let direction = if dir == 0 { Direction::Request } else { Direction::Response };
                Decoded::Complete {
                    command: Command { opcode, command_id, ttl_ms, direction, correlation_id, payload },
                    consumed,
                }
            }
        },
    }
}

proof fn lemma_join16(x: u16)
    ensures
        (((((x as u64) >> 8) & 0xff) as u8 as u16) << 8) | ((((x as u64) >> 0) & 0xff) as u8 as u16) == x,
{
    assert((((((x as u64) >> 8) & 0xff) as u8 as u16) << 8) | ((((x as u64) >> 0) & 0xff) as u8 as u16) == x)
        by (bit_vector);
}

proof fn lemma_join32(x: u32)
    ensures
        (((((x as u64) >> 24) & 0xff) as u8 as u32) << 24) | (((((x as u64) >> 16) & 0xff) as u8 as u32) << 16) | (((((
        x as u64) >> 8) & 0xff) as u8 as u32) << 8) | ((((x as u64) >> 0) & 0xff) as u8 as u32) == x,
{
    assert((((((x as u64) >> 24) & 0xff) as u8 as u32) << 24) | (((((x as u64) >> 16) & 0xff) as u8 as u32) << 16) | (((((
    x as u64) >> 8) & 0xff) as u8 as u32) << 8) | ((((x as u64) >> 0) & 0xff) as u8 as u32) == x) by (bit_vector);
}

proof fn lemma_join64(x: u64)
    ensures
        ((((x >> 56) & 0xff) as u8 as u64) << 56) | ((((x >> 48) & 0xff) as u8 as u64) << 48) | ((((x >> 40) & 0xff) as u8 as u64)
            << 40) | ((((x >> 32) & 0xff) as u8 as u64) << 32) | ((((x >> 24) & 0xff) as u8 as u64) << 24) | ((((x >> 16)
            & 0xff) as u8 as u64) << 16) | ((((x >> 8) & 0xff) as u8 as u64) << 8) | (((x >> 0) & 0xff) as u8 as u64) == x,
{
    assert(((((x >> 56) & 0xff) as u8 as u64) << 56) | ((((x >> 48) & 0xff) as u8 as u64) << 48) | ((((x >> 40) & 0xff) as u8
        as u64) << 40) | ((((x >> 32) & 0xff) as u8 as u64) << 32) | ((((x >> 24) & 0xff) as u8 as u64) << 24) | ((((x
        >> 16) & 0xff) as u8 as u64) << 16) | ((((x >> 8) & 0xff) as u8 as u64) << 8) | (((x >> 0) & 0xff) as u8 as u64)
        == x) by (bit_vector);
}

/// Decoding the frame of a command gives the command back, whatever follows
/// the frame in the stream. A request with a ttl of zero is left out: it has
/// expired by the time it arrives.
pub proof fn lemma_decode_encode(c: CommandView, rest: Seq<u8>)
    requires
        c.wf(),
        !(c.direction == Direction::Request && c.ttl_ms == 0),
    ensures
        parse(frame(c) + rest) == (Parsed::Complete { command: c, consumed: frame(c).len() as int }),
        frame(c).len() == HEADER_LEN + c.payload.len(),
{
    let s = frame(c) + rest;
    let h = header(c);
    assert(h.len() == 27);
    assert forall|i: int| 0 <= i < 27 implies s[i] == h[i] by {}
    lemma_join16(c.opcode.code());
    lemma_join64(c.command_id);
    lemma_join32(c.ttl_ms);
    lemma_join64(c.correlation_id);
    lemma_join32(c.payload.len() as u32);
    assert(be16_at(s, 0) == c.opcode.code());
    assert(be64_at(s, 2) == c.command_id);
    assert(be32_at(s, 10) == c.ttl_ms);
    assert(s[14] == c.direction.code());
    assert(be64_at(s, 15) == c.correlation_id);
    assert(be32_at(s, 23) == c.payload.len());
    assert(Opcode::from_code(c.opcode.code()) == Some(c.opcode));
    assert(s.subrange(27, 27 + c.payload.len() as int) =~= c.payload);
}

} // verus!
