//! The atomic protocol message.

use vstd::prelude::*;

verus! {

/// Largest payload a frame may carry, in bytes: with it, the length of the
/// whole frame still fits in 32 bits.
pub const MAX_PAYLOAD: usize = 0xffff_ffe4;

/// Selects a command's semantics and the shape of its payload.
#[derive(Clone, Copy, Debug, PartialEq, Eq, Structural)]
pub enum Opcode {
    Ping,
    Announce,
    RequestContribution,
    FetchChunk,
    StoreChunk,
    Ack,
    Error,
}

impl Opcode {
    /// The discriminator that stands for this opcode on the wire.
    pub open spec fn code(self) -> u16 {
        match self {
            Opcode::Ping => 1,
            Opcode::Announce => 2,
            Opcode::RequestContribution => 3,
            Opcode::FetchChunk => 4,
            Opcode::StoreChunk => 5,
            Opcode::Ack => 6,
            Opcode::Error => 7,
        }
    }

    /// The opcode a discriminator stands for, if any.
    pub open spec fn from_code(code: u16) -> Option<Opcode> {
        if code == 1 {
            Some(Opcode::Ping)
        } else if code == 2 {
            Some(Opcode::Announce)
        } else if code == 3 {
            Some(Opcode::RequestContribution)
        } else if code == 4 {
            Some(Opcode::FetchChunk)
        } else if code == 5 {
            Some(Opcode::StoreChunk)
        } else if code == 6 {
            Some(Opcode::Ack)
        } else if code == 7 {
            Some(Opcode::Error)
        } else {
            None
        }
    }

    pub fn to_wire(self) -> (r: u16)
        ensures
            r == self.code(),
            Opcode::from_code(r) == Some(self),
    {
        match self {
            Opcode::Ping => 1,
            Opcode::Announce => 2,
            Opcode::RequestContribution => 3,
            Opcode::FetchChunk => 4,
            Opcode::StoreChunk => 5,
            Opcode::Ack => 6,
            Opcode::Error => 7,
        }
    }

    pub fn from_wire(code: u16) -> (r: Option<Opcode>)
        ensures
            r == Opcode::from_code(code),
            r is Some ==> r.unwrap().code() == code,
    {
        if code == 1 {
            Some(Opcode::Ping)
        } else if code == 2 {
            Some(Opcode::Announce)
        } else if code == 3 {
            Some(Opcode::RequestContribution)
        } else if code == 4 {
            Some(Opcode::FetchChunk)
        } else if code == 5 {
            Some(Opcode::StoreChunk)
        } else if code == 6 {
            Some(Opcode::Ack)
        } else if code == 7 {
            Some(Opcode::Error)
        } else {
            None
        }
    }
}

/// Whether a command asks for work or answers an earlier command.
#[derive(Clone, Copy, Debug, PartialEq, Eq, Structural)]
pub enum Direction {
    Request,
    Response,
}

impl Direction {
    pub open spec fn code(self) -> u8 {
        match self {
            Direction::Request => 0,
            Direction::Response => 1,
        }
    }
}

/// One protocol message.
#[derive(Debug, PartialEq, Eq)]
pub struct Command {
    pub opcode: Opcode,
    pub command_id: u64,
    pub ttl_ms: u32,
    pub direction: Direction,
    pub correlation_id: u64,
    pub payload: Vec<u8>,
}

/// The mathematical value of a [`Command`].
pub ghost struct CommandView {
    pub opcode: Opcode,
    pub command_id: u64,
    pub ttl_ms: u32,
    pub direction: Direction,
    pub correlation_id: u64,
    pub payload: Seq<u8>,
}

impl CommandView {
    /// A request carries no correlation id, and the payload fits a frame.
    pub open spec fn wf(self) -> bool {
        &&& self.direction == Direction::Request ==> self.correlation_id == 0
        &&& self.payload.len() <= MAX_PAYLOAD
    }

    /// The request with these fields.
    pub open spec fn request(opcode: Opcode, command_id: u64, ttl_ms: u32, payload: Seq<u8>) -> CommandView {
        CommandView {
            opcode,
            command_id,
            ttl_ms,
            direction: Direction::Request,
            correlation_id: 0,
            payload,
        }
    }

    /// The response that answers `request` with `opcode` and `payload`: it
    /// keeps the request's id and ttl and is correlated with it.
    pub open spec fn answer(request: CommandView, opcode: Opcode, payload: Seq<u8>) -> CommandView {
        CommandView {
            opcode,
            command_id: request.command_id,
            ttl_ms: request.ttl_ms,
            direction: Direction::Response,
            correlation_id: request.command_id,
            payload,
        }
    }
}

impl View for Command {
    type V = CommandView;

    open spec fn view(&self) -> CommandView {
        CommandView {
            opcode: self.opcode,
            command_id: self.command_id,
            ttl_ms: self.ttl_ms,
            direction: self.direction,
            correlation_id: self.correlation_id,
            payload: self.payload@,
        }
    }
}

/// A fresh vector holding the same bytes.
pub fn copy_bytes(src: &Vec<u8>) -> (out: Vec<u8>)
    ensures
        out@ == src@,
{
    let mut out: Vec<u8> = Vec::new();
    let mut i: usize = 0;
    while i < src.len()
        invariant
            i <= src.len(),
            out@ == src@.take(i as int),
        decreases src.len() - i,
    {
        out.push(src[i]);
        assert(src@.take(i + 1) =~= src@.take(i as int).push(src@[i as int]));
        i += 1;
    }
    assert(src@.take(src.len() as int) =~= src@);
    out
}

impl Clone for Command {
    fn clone(&self) -> (c: Command)
        ensures
            c@ == self@,
    {
        Command {
            opcode: self.opcode,
            command_id: self.command_id,
            ttl_ms: self.ttl_ms,
            direction: self.direction,
            correlation_id: self.correlation_id,
            payload: copy_bytes(&self.payload),
        }
    }
}

impl Command {
    pub open spec fn wf(&self) -> bool {
        self@.wf()
    }

    /// Builds a request.
    pub fn request(opcode: Opcode, command_id: u64, ttl_ms: u32, payload: Vec<u8>) -> (c: Command)
        ensures
            c@ == CommandView::request(opcode, command_id, ttl_ms, payload@),
    {
        Command { opcode, command_id, ttl_ms, direction: Direction::Request, correlation_id: 0, payload }
    }

    /// Builds the response to `request`.
    pub fn answer(request: &Command, opcode: Opcode, payload: Vec<u8>) -> (c: Command)
        ensures
            c@ == CommandView::answer(request@, opcode, payload@),
    {
        Command {
            opcode,
            command_id: request.command_id,
            ttl_ms: request.ttl_ms,
            direction: Direction::Response,
            correlation_id: request.command_id,
            payload,
        }
    }

    pub fn is_request(&self) -> (r: bool)
        ensures
            r == (self@.direction == Direction::Request),
    {
        match self.direction {
            Direction::Request => true,
            Direction::Response => false,
        }
    }
}

} // verus!
