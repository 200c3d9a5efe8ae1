//! One logical connection to one remote peer.
//!
//! A session decides and keeps the books; the bytes it hands out are written
//! to the transport by its driver, and the bytes the transport delivers are
//! handed in. Command ids come from a counter that starts at one.

use vstd::prelude::*;
use crate::codec::{decode, encode, frame, parse, Decoded, Parsed};
use crate::command::{Command, CommandView, Direction, Opcode, MAX_PAYLOAD};
use crate::dispatch::{
    decide, other_than, reply_for, result_view, running_after, stored, unknown_opcode_reply, Action, ActionView,
    Dispatcher,
};
use crate::pending::{
    deadline_after, has_id, ids_distinct, live_at, due_at, removed, completion, resolved_with, views, OutcomeView,
    PendingRequest, PendingTable, Resolution, ResolutionView,
};

verus! {

/// Malformed inputs after which a session is closed.
pub const MALFORMED_LIMIT: u32 = 3;

/// Where a session is in its life.
#[derive(Clone, Copy, Debug, PartialEq, Eq, Structural)]
pub enum SessionState {
    Connecting,
    Open,
    Closing,
    Closed,
}

/// Why nothing was sent.
#[derive(Clone, Copy, Debug, PartialEq, Eq, Structural)]
pub enum SendError {
    /// The session is not open.
    ConnectionLost,
    /// The payload does not fit a frame.
    PayloadTooLarge,
    /// The command id is pending already.
    DuplicateId,
    /// The command is no response.
    NotAResponse,
}

/// A frame to write, and the id of the command in it.
#[derive(Debug, PartialEq, Eq)]
pub struct Outbound {
    pub command_id: u64,
    pub frame: Vec<u8>,
}

/// What the front of the inbound buffer held.
#[derive(Debug, PartialEq, Eq)]
pub enum Inbound {
    /// No whole frame yet.
    Wait,
    /// A command for the dispatcher.
    Command(Command),
    /// A frame of unknown opcode; this ERROR response answers it.
    Reply(Command),
    /// A request that had expired on arrival.
    Dropped,
    /// Malformed input, which was thrown away.
    Rejected,
    /// Malformed input once too often: the session closed, and these are
    /// the ends of its pending requests.
    Closed(Vec<Resolution>),
}

/// What the driver of a session is to do next.
#[derive(Debug, PartialEq, Eq)]
pub enum Step {
    /// No whole frame yet: wait for more bytes.
    Wait,
    /// A response arrived. Deliver the resolution, if there is one.
    Resolved(Option<Resolution>),
    /// Write this frame: the response to a request.
    Send(Vec<u8>),
    /// Run the handler on the request and hand the result to `respond`.
    Invoke { handler: u32, request: Command },
    /// A copy of a request whose handler is running: nothing to do.
    InProgress,
    /// A request that had expired on arrival: nothing to do.
    Dropped,
    /// Malformed input, which was thrown away.
    Rejected,
    /// The session closed. Deliver the resolutions and tell the registry.
    Closed(Vec<Resolution>),
}

/// The mathematical value of a [`Session`].
pub ghost struct SessionView {
    pub peer: u64,
    pub capacity: u64,
    pub last_seen: u64,
    pub state: SessionState,
    pub next_id: u64,
    pub pending: Seq<PendingRequest>,
    pub inbound: Seq<u8>,
    pub strikes: u32,
}

/// A session to `peer` that is being established.
pub open spec fn fresh_session(peer: u64) -> SessionView {
    SessionView {
        peer,
        capacity: 0,
        last_seen: 0,
        state: SessionState::Connecting,
        next_id: 1,
        pending: Seq::empty(),
        inbound: Seq::empty(),
        strikes: 0,
    }
}

/// The id that follows `id`.
pub open spec fn id_after(id: u64) -> u64 {
    if id == u64::MAX {
        1
    } else {
        (id + 1) as u64
    }
}

/// What sending a request under `command_id` hands back on a session of
/// value `v`.
pub open spec fn send_outcome_with(
    v: SessionView,
    command_id: u64,
    opcode: Opcode,
    payload: Seq<u8>,
    ttl_ms: u32,
) -> Result<(u64, Seq<u8>), SendError> {
    if v.state != SessionState::Open {
        Err(SendError::ConnectionLost)
    } else if payload.len() > MAX_PAYLOAD {
        Err(SendError::PayloadTooLarge)
    } else if has_id(v.pending, command_id) {
        Err(SendError::DuplicateId)
    } else {
        Ok((command_id, frame(CommandView::request(opcode, command_id, ttl_ms, payload))))
    }
}

/// The session after a request was sent under `command_id` at `now`: a
/// request that went out is pending.
pub open spec fn after_send_with(
    v: SessionView,
    command_id: u64,
    opcode: Opcode,
    payload: Seq<u8>,
    ttl_ms: u32,
    now: u64,
) -> SessionView {
    if send_outcome_with(v, command_id, opcode, payload, ttl_ms) is Ok {
        SessionView {
            pending: v.pending.push(
                PendingRequest { command_id, issued_at: now, deadline: deadline_after(now, ttl_ms) },
            ),
            ..v
        }
    } else {
        v
    }
}

/// What `send_request` hands back on a session of value `v`: what sending
/// under the session's next id does.
pub open spec fn send_outcome(v: SessionView, opcode: Opcode, payload: Seq<u8>, ttl_ms: u32) -> Result<
    (u64, Seq<u8>),
    SendError,
> {
    send_outcome_with(v, v.next_id, opcode, payload, ttl_ms)
}

/// The session after `send_request` at `now`: a request that went out is
/// pending, and the id it carried, or collided on, is used up.
pub open spec fn after_send(v: SessionView, opcode: Opcode, payload: Seq<u8>, ttl_ms: u32, now: u64) -> SessionView {
    match send_outcome(v, opcode, payload, ttl_ms) {
        Ok(_) => SessionView {
            next_id: id_after(v.next_id),
            pending: v.pending.push(
                PendingRequest { command_id: v.next_id, issued_at: now, deadline: deadline_after(now, ttl_ms) },
            ),
            ..v
        },
        Err(SendError::DuplicateId) => SessionView { next_id: id_after(v.next_id), ..v },
        Err(_) => v,
    }
}

/// The session that takes the place of a closed one.
pub open spec fn successor_of(v: SessionView) -> SessionView {
    SessionView { state: SessionState::Connecting, pending: Seq::empty(), inbound: Seq::empty(), strikes: 0, ..v }
}

/// The session after its transport failed.
pub open spec fn after_failure(v: SessionView) -> SessionView {
    SessionView { state: SessionState::Closed, pending: Seq::empty(), inbound: Seq::empty(), ..v }
}

/// A fresh vector holding the bytes of `buf` from `from` on.
pub fn tail_from(buf: &Vec<u8>, from: usize) -> (out: Vec<u8>)
    requires
        from <= buf@.len(),
    ensures
        out@ == buf@.skip(from as int),
{
    let mut out: Vec<u8> = Vec::new();
    let mut i: usize = from;
    while i < buf.len()
        invariant
            from <= i <= buf.len(),
            out@ == buf@.subrange(from as int, i as int),
        decreases buf.len() - i,
    {
        out.push(buf[i]);
        assert(buf@.subrange(from as int, i + 1) =~= buf@.subrange(from as int, i as int).push(buf@[i as int]));
        i += 1;
    }
    assert(buf@.subrange(from as int, buf@.len() as int) =~= buf@.skip(from as int));
    out
}

/// One logical connection to one remote peer.
pub struct Session {
    peer: u64,
    capacity: u64,
    last_seen: u64,
    state: SessionState,
    next_id: u64,
    pending: PendingTable,
    inbound: Vec<u8>,
    strikes: u32,
}

impl View for Session {
    type V = SessionView;

    closed spec fn view(&self) -> SessionView {
        SessionView {
            peer: self.peer,
            capacity: self.capacity,
            last_seen: self.last_seen,
            state: self.state,
            next_id: self.next_id,
            pending: self.pending@,
            inbound: self.inbound@,
            strikes: self.strikes,
        }
    }
}

impl Session {
    /// No command id is pending twice, and a closed session has nothing
    /// pending.
    pub open spec fn wf(&self) -> bool {
        &&& ids_distinct(self@.pending)
        &&& self@.state == SessionState::Closed ==> self@.pending.len() == 0
    }

    /// A session to `peer` that is being established. Nothing is known of
    /// the peer yet.
    pub fn new(peer: u64) -> (s: Session)
        ensures
            s.wf(),
            s@ == fresh_session(peer),
    {
        Session {
            peer,
            capacity: 0,
            last_seen: 0,
            state: SessionState::Connecting,
            next_id: 1,
            pending: PendingTable::new(),
            inbound: Vec::new(),
            strikes: 0,
        }
    }

    pub fn peer(&self) -> (p: u64)
        ensures
            p == self@.peer,
    {
        self.peer
    }

    /// The storage the peer last advertised, in bytes.
    pub fn capacity(&self) -> (c: u64)
        ensures
            c == self@.capacity,
    {
        self.capacity
    }

    /// The latest moment at which the peer was heard from.
    pub fn last_seen(&self) -> (t: u64)
        ensures
            t == self@.last_seen,
    {
        self.last_seen
    }

    /// The peer advertised its contribution capacity.
    pub fn announce(&mut self, capacity: u64)
        ensures
            final(self)@ == (SessionView { capacity, ..old(self)@ }),
            final(self).wf() == old(self).wf(),
    {
        self.capacity = capacity;
    }

    /// The peer was heard from at `now`. The clock never moves the record
    /// back.
    pub fn heard(&mut self, now: u64)
        ensures
            final(self)@ == (SessionView {
                last_seen: if now > old(self)@.last_seen {
                    now
                } else {
                    old(self)@.last_seen
                },
                ..old(self)@
            }),
            final(self).wf() == old(self).wf(),
    {
        if now > self.last_seen {
            self.last_seen = now;
        }
    }

    pub fn state(&self) -> (s: SessionState)
        ensures
            s == self@.state,
    {
        self.state
    }

    pub fn is_open(&self) -> (r: bool)
        ensures
            r == (self@.state == SessionState::Open),
    {
        match self.state {
            SessionState::Open => true,
            _ => false,
        }
    }

    /// Number of requests that wait for a response.
    pub fn pending_len(&self) -> (n: usize)
        ensures
            n == self@.pending.len(),
    {
        self.pending.len()
    }

    /// Whether the request with this id waits for a response.
    pub fn is_pending(&self, command_id: u64) -> (r: bool)
        requires
            self.wf(),
        ensures
            r == has_id(self@.pending, command_id),
    {
        self.pending.contains(command_id)
    }

    /// The transport is up: a connecting session opens. Any other stays as
    /// it is.
    pub fn opened(&mut self)
        requires
            old(self).wf(),
        ensures
            final(self).wf(),
            final(self)@ == (SessionView {
                state: if old(self)@.state == SessionState::Connecting {
                    SessionState::Open
                } else {
                    old(self)@.state
                },
                ..old(self)@
            }),
    {
        match self.state {
            SessionState::Connecting => {
                self.state = SessionState::Open;
            },
            _ => {},
        }
    }

    /// Starts an orderly close: an open or connecting session accepts no
    /// more sends, and its pending requests go on waiting.
    pub fn close(&mut self)
        requires
            old(self).wf(),
        ensures
            final(self).wf(),
            final(self)@ == (SessionView {
                state: if old(self)@.state == SessionState::Closed {
                    SessionState::Closed
                } else {
                    SessionState::Closing
                },
                ..old(self)@
            }),
    {
        match self.state {
            SessionState::Closed => {},
            _ => {
                self.state = SessionState::Closing;
            },
        }
    }

    /// A new session to the same peer, being established. It knows of the
    /// peer what this one knew, and its command ids go on from where this
    /// one's were, so that the peer mistakes no new request for an old one.
    pub fn successor(&self) -> (s: Session)
        ensures
            s.wf(),
            s@ == successor_of(self@),
    {
        Session {
            peer: self.peer,
            capacity: self.capacity,
            last_seen: self.last_seen,
            state: SessionState::Connecting,
            next_id: self.next_id,
            pending: PendingTable::new(),
            inbound: Vec::new(),
            strikes: 0,
        }
    }

    /// Issues a request at `now` under a fresh command id: registers it as
    /// pending and returns its frame.
    pub fn send_request(&mut self, opcode: Opcode, payload: Vec<u8>, ttl_ms: u32, now: u64) -> (r: Result<
        Outbound,
        SendError,
    >)
        requires
            old(self).wf(),
        ensures
            final(self).wf(),
            final(self)@ == after_send(old(self)@, opcode, payload@, ttl_ms, now),
            match r {
                Ok(o) => send_outcome(old(self)@, opcode, payload@, ttl_ms) == Ok::<(u64, Seq<u8>), SendError>(
                    (o.command_id, o.frame@),
                ),
                Err(e) => send_outcome(old(self)@, opcode, payload@, ttl_ms) == Err::<(u64, Seq<u8>), SendError>(e),
            },
    {
        if !self.is_open() {
            return Err(SendError::ConnectionLost);
        }
        if payload.len() > MAX_PAYLOAD {
            return Err(SendError::PayloadTooLarge);
        }
        let id: u64 = self.next_id;
        self.next_id = if id == u64::MAX {
            1
        } else {
            id + 1
        };
        self.send_with_id(id, opcode, payload, ttl_ms, now)
    }

    /// Issues a request at `now` under an id of the caller's choosing:
    /// registers it as pending and returns its frame. An id that is pending
    /// already is refused, and nothing changes.
    pub fn send_with_id(&mut self, command_id: u64, opcode: Opcode, payload: Vec<u8>, ttl_ms: u32, now: u64) -> (r:
        Result<Outbound, SendError>)
        requires
            old(self).wf(),
        ensures
            final(self).wf(),
            final(self)@ == after_send_with(old(self)@, command_id, opcode, payload@, ttl_ms, now),
            match r {
                Ok(o) => send_outcome_with(old(self)@, command_id, opcode, payload@, ttl_ms) == Ok::<
                    (u64, Seq<u8>),
                    SendError,
                >((o.command_id, o.frame@)),
                Err(e) => send_outcome_with(old(self)@, command_id, opcode, payload@, ttl_ms) == Err::<
                    (u64, Seq<u8>),
                    SendError,
                >(e),
            },
    {
        if !self.is_open() {
            return Err(SendError::ConnectionLost);
        }
        if payload.len() > MAX_PAYLOAD {
            return Err(SendError::PayloadTooLarge);
        }
        match self.pending.register(command_id, ttl_ms, now) {
            Err(_) => Err(SendError::DuplicateId),
            Ok(_) => {
                let request = Command::request(opcode, command_id, ttl_ms, payload);
                let frame = encode(&request);
                Ok(Outbound { command_id, frame })
            },
        }
    }

    /// The frame of a response, for a session that is open.
    pub fn send_response(&self, response: &Command) -> (r: Result<Vec<u8>, SendError>)
        ensures
            match r {
                Ok(bytes) => self@.state == SessionState::Open && response@.direction == Direction::Response
                    && response@.wf() && bytes@ == frame(response@),
                Err(e) => e == (if self@.state != SessionState::Open {
                    SendError::ConnectionLost
                } else if response@.direction != Direction::Response {
                    SendError::NotAResponse
                } else {
                    SendError::PayloadTooLarge
                }) && !(self@.state == SessionState::Open && response@.direction == Direction::Response
                    && response@.wf()),
            },
    {
        if !self.is_open() {
            Err(SendError::ConnectionLost)
        } else if response.is_request() {
            Err(SendError::NotAResponse)
        } else if response.payload.len() > MAX_PAYLOAD {
            Err(SendError::PayloadTooLarge)
        } else {
            Ok(encode(response))
        }
    }

    /// Takes bytes that the transport delivered. A closed session takes
    /// none.
    pub fn on_bytes(&mut self, bytes: &Vec<u8>)
        requires
            old(self).wf(),
        ensures
            final(self).wf(),
            final(self)@ == (SessionView {
                inbound: if old(self)@.state == SessionState::Closed {
                    old(self)@.inbound
                } else {
                    old(self)@.inbound + bytes@
                },
                ..old(self)@
            }),
    {
        match self.state {
            SessionState::Closed => {},
            _ => {
                let mut i: usize = 0;
                while i < bytes.len()
                    invariant
                        i <= bytes.len(),
                        self.wf(),
                        self@ == (SessionView { inbound: old(self)@.inbound + bytes@.take(i as int), ..old(self)@ }),
                    decreases bytes.len() - i,
                {
                    self.inbound.push(bytes[i]);
                    assert(old(self)@.inbound + bytes@.take(i + 1) =~= (old(self)@.inbound + bytes@.take(i as int)).push(
                        bytes@[i as int],
                    ));
                    i += 1;
                }
                assert(bytes@.take(bytes@.len() as int) =~= bytes@);
            },
        }
    }

    /// Decodes the front of the inbound buffer and takes it off the buffer.
    /// A malformed front empties the buffer and counts as a strike; at the
    /// limit the session closes as on a transport failure.
    pub fn next_inbound(&mut self) -> (r: Inbound)
        requires
            old(self).wf(),
        ensures
            final(self).wf(),
            match parse(old(self)@.inbound) {
                Parsed::NeedMoreData => r == Inbound::Wait && final(self)@ == old(self)@,
                Parsed::Complete { command, consumed } => {
                    &&& r matches Inbound::Command(c)
                    &&& c@ == command
                    &&& final(self)@ == (SessionView {
                        inbound: old(self)@.inbound.skip(consumed),
                        ..old(self)@
                    })
                },
                Parsed::UnknownOpcode { code, command_id, consumed } => {
                    &&& r matches Inbound::Reply(c)
                    &&& c@ == unknown_opcode_reply(command_id)
                    &&& final(self)@ == (SessionView {
                        inbound: old(self)@.inbound.skip(consumed),
                        ..old(self)@
                    })
                },
                Parsed::TtlExpired { command_id, consumed } => {
                    &&& r == Inbound::Dropped
                    &&& final(self)@ == (SessionView {
                        inbound: old(self)@.inbound.skip(consumed),
                        ..old(self)@
                    })
                },
                Parsed::Malformed => if old(self)@.strikes + 1 >= MALFORMED_LIMIT {
                    &&& r matches Inbound::Closed(ends)
                    &&& views(ends@) == resolved_with(old(self)@.pending, OutcomeView::ConnectionLost)
                    &&& final(self)@ == after_failure(old(self)@)
                } else {
                    &&& r == Inbound::Rejected
                    &&& final(self)@ == (SessionView {
                        inbound: Seq::empty(),
                        strikes: (old(self)@.strikes + 1) as u32,
                        ..old(self)@
                    })
                },
            },
    {
        match decode(self.inbound.as_slice()) {
            Decoded::NeedMoreData => Inbound::Wait,
            Decoded::Complete { command, consumed } => {
                self.inbound = tail_from(&self.inbound, consumed);
                Inbound::Command(command)
            },
            Decoded::UnknownOpcode { code, command_id, consumed } => {
                self.inbound = tail_from(&self.inbound, consumed);
                Inbound::Reply(Dispatcher::on_unknown_opcode(command_id))
            },
            Decoded::TtlExpired { command_id, consumed } => {
                self.inbound = tail_from(&self.inbound, consumed);
                Inbound::Dropped
            },
            Decoded::Malformed => {
                if self.strikes >= MALFORMED_LIMIT - 1 {
                    Inbound::Closed(self.fail())
                } else {
                    self.strikes = self.strikes + 1;
                    self.inbound = Vec::new();
                    Inbound::Rejected
                }
            },
        }
    }

    /// Takes the next frame off the inbound buffer and acts on it: a
    /// response resolves the request it answers; a request is answered from
    /// the cache, left to its running handler, or passed out for its handler
    /// to run; a frame of unknown opcode is answered with an ERROR.
    pub fn receive(&mut self, dispatcher: &mut Dispatcher, now: u64) -> (step: Step)
        requires
            old(self).wf(),
            old(dispatcher).wf(),
        ensures
            final(self).wf(),
            final(dispatcher).wf(),
            final(dispatcher).cache() == old(dispatcher).cache(),
            final(dispatcher).handlers() == old(dispatcher).handlers(),
            match parse(old(self)@.inbound) {
                Parsed::NeedMoreData => step == Step::Wait && final(self)@ == old(self)@ && final(dispatcher).running()
                    == old(dispatcher).running(),
                Parsed::Complete { command, consumed } => {
                    let taken = SessionView { inbound: old(self)@.inbound.skip(consumed), ..old(self)@ };
                    &&& final(dispatcher).running() == running_after(
                        old(dispatcher).cache(),
                        old(dispatcher).handlers(),
                        old(dispatcher).running(),
                        old(self)@.peer,
                        command,
                        now,
                    )
                    &&& match decide(
                        old(dispatcher).cache(),
                        old(dispatcher).handlers(),
                        old(dispatcher).running(),
                        old(self)@.peer,
                        command,
                        now,
                    ) {
                        ActionView::Resolve { correlation_id, response } => {
                            &&& step matches Step::Resolved(r)
                            &&& match r {
                                Some(x) => completion(old(self)@.pending, correlation_id, response, now) == Some(x@),
                                None => completion(old(self)@.pending, correlation_id, response, now) is None,
                            }
                            &&& final(self)@ == (SessionView {
                                pending: removed(old(self)@.pending, correlation_id),
                                ..taken
                            })
                        },
                        ActionView::Reply(response) => {
                            &&& step matches Step::Send(bytes)
                            &&& bytes@ == frame(response)
                            &&& final(self)@ == taken
                        },
                        ActionView::Invoke { handler, request } => {
                            &&& step matches Step::Invoke { handler: h, request: c }
                            &&& h == handler
                            &&& c@ == request
                            &&& final(self)@ == taken
                        },
                        ActionView::InProgress => step == Step::InProgress && final(self)@ == taken,
                    }
                },
                Parsed::UnknownOpcode { code, command_id, consumed } => {
                    &&& step matches Step::Send(bytes)
                    &&& bytes@ == frame(unknown_opcode_reply(command_id))
                    &&& final(self)@ == (SessionView {
                        inbound: old(self)@.inbound.skip(consumed),
                        ..old(self)@
                    })
                    &&& final(dispatcher).running() == old(dispatcher).running()
                },
                Parsed::TtlExpired { command_id, consumed } => {
                    &&& step == Step::Dropped
                    &&& final(self)@ == (SessionView {
                        inbound: old(self)@.inbound.skip(consumed),
                        ..old(self)@
                    })
                    &&& final(dispatcher).running() == old(dispatcher).running()
                },
                Parsed::Malformed => {
                    &&& final(dispatcher).running() == old(dispatcher).running()
                    &&& if old(self)@.strikes + 1 >= MALFORMED_LIMIT {
                        &&& step matches Step::Closed(ends)
                        &&& views(ends@) == resolved_with(old(self)@.pending, OutcomeView::ConnectionLost)
                        &&& final(self)@ == after_failure(old(self)@)
                    } else {
                        &&& step == Step::Rejected
                        &&& final(self)@ == (SessionView {
                            inbound: Seq::empty(),
                            strikes: (old(self)@.strikes + 1) as u32,
                            ..old(self)@
                        })
                    }
                },
            },
    {
        match self.next_inbound() {
            Inbound::Wait => Step::Wait,
            Inbound::Command(command) => {
                match dispatcher.on_command(self.peer, command, now) {
                    Action::Resolve { correlation_id, response } => Step::Resolved(self.on_response(response, now)),
                    Action::Reply(response) => Step::Send(encode(&response)),
                    Action::Invoke { handler, request } => Step::Invoke { handler, request },
                    Action::InProgress => Step::InProgress,
                }
            },
            Inbound::Reply(response) => Step::Send(encode(&response)),
            Inbound::Dropped => Step::Dropped,
            Inbound::Rejected => Step::Rejected,
            Inbound::Closed(ends) => Step::Closed(ends),
        }
    }

    /// Takes the result of the handler that ran for `request` at `now`: the
    /// response is cached for redelivery, and its frame is returned for an
    /// open session to write.
    pub fn respond(&self, dispatcher: &mut Dispatcher, request: &Command, result: Result<Vec<u8>, Vec<u8>>, now: u64) -> (r:
        Result<Vec<u8>, SendError>)
        requires
            old(dispatcher).wf(),
        ensures
            final(dispatcher).wf(),
            final(dispatcher).handlers() == old(dispatcher).handlers(),
            final(dispatcher).cache() == stored(
                old(dispatcher).cache(),
                self@.peer,
                request@,
                result_view(result),
                now,
            ),
            final(dispatcher).running() == old(dispatcher).running().filter(
                other_than(self@.peer, request@.command_id),
            ),
            match r {
                Ok(bytes) => self@.state == SessionState::Open && bytes@ == frame(
                    reply_for(request@, result_view(result)),
                ),
                Err(e) => self@.state != SessionState::Open && e == SendError::ConnectionLost,
            },
    {
        let response = dispatcher.finish(self.peer, request, result, now);
        self.send_response(&response)
    }

    /// Resolves the pending request that `response`, arriving at `now`,
    /// answers. A response that nothing waits for is dropped.
    pub fn on_response(&mut self, response: Command, now: u64) -> (r: Option<Resolution>)
        requires
            old(self).wf(),
        ensures
            final(self).wf(),
            final(self)@ == (SessionView {
                pending: removed(old(self)@.pending, response@.correlation_id),
                ..old(self)@
            }),
            match r {
                Some(x) => completion(old(self)@.pending, response@.correlation_id, response@, now) == Some(x@),
                None => completion(old(self)@.pending, response@.correlation_id, response@, now) is None,
            },
    {
        let id: u64 = response.correlation_id;
        let r = self.pending.complete(id, response, now);
        proof {
            if self@.state == SessionState::Closed {
                assert(!has_id(old(self)@.pending, id));
            }
        }
        r
    }

    /// Stops waiting for the request with this id. Says whether it was
    /// pending.
    pub fn cancel(&mut self, command_id: u64) -> (r: bool)
        requires
            old(self).wf(),
        ensures
            final(self).wf(),
            r == has_id(old(self)@.pending, command_id),
            final(self)@ == (SessionView { pending: removed(old(self)@.pending, command_id), ..old(self)@ }),
    {
        let r = self.pending.cancel(command_id);
        proof {
            if self@.state == SessionState::Closed {
                assert(!has_id(old(self)@.pending, command_id));
            }
        }
        r
    }

    /// Resolves with a timeout every pending request whose deadline has
    /// passed at `now`.
    pub fn sweep(&mut self, now: u64) -> (out: Vec<Resolution>)
        requires
            old(self).wf(),
        ensures
            final(self).wf(),
            final(self)@ == (SessionView { pending: old(self)@.pending.filter(live_at(now)), ..old(self)@ }),
            views(out@) == resolved_with(old(self)@.pending.filter(due_at(now)), OutcomeView::Timeout),
            out@.len() == old(self)@.pending.filter(due_at(now)).len(),
    {
        proof {
            old(self)@.pending.lemma_filter_len(live_at(now));
        }
        self.pending.expire_due(now)
    }

    /// The transport failed: the session closes, and every pending request
    /// ends with a lost connection.
    pub fn fail(&mut self) -> (out: Vec<Resolution>)
        ensures
            final(self).wf(),
            final(self)@ == after_failure(old(self)@),
            views(out@) == resolved_with(old(self)@.pending, OutcomeView::ConnectionLost),
            out@.len() == old(self)@.pending.len(),
    {
        self.state = SessionState::Closed;
        self.inbound = Vec::new();
        self.pending.fail_all()
    }
}

/// A request that was sent and gets no response is resolved with a timeout
/// by the first sweep at or after its deadline, and is then no longer
/// pending.
pub proof fn lemma_unanswered_request_times_out(
    v: SessionView,
    opcode: Opcode,
    payload: Seq<u8>,
    ttl_ms: u32,
    sent_at: u64,
    now: u64,
)
    requires
        ids_distinct(v.pending),
        send_outcome(v, opcode, payload, ttl_ms) is Ok,
        now >= deadline_after(sent_at, ttl_ms),
    ensures
        ({
            let w = after_send(v, opcode, payload, ttl_ms, sent_at);
            let id = send_outcome(v, opcode, payload, ttl_ms).unwrap().0;
            &&& has_id(w.pending, id)
            &&& !has_id(w.pending.filter(live_at(now)), id)
            &&& resolved_with(w.pending.filter(due_at(now)), OutcomeView::Timeout).contains(
                ResolutionView { command_id: id, outcome: OutcomeView::Timeout },
            )
        }),
{
    let w = after_send(v, opcode, payload, ttl_ms, sent_at);
    let e = w.pending.last();
    assert(w.pending[w.pending.len() - 1] == e);
    assert(e.command_id == v.next_id);
    assert forall|i: int, j: int| 0 <= i < j < w.pending.len() implies (#[trigger] w.pending[i]).command_id != (
    #[trigger] w.pending[j]).command_id by {
        assert(w.pending[i] == v.pending[i]);
        if j < v.pending.len() {
            assert(w.pending[j] == v.pending[j]);
        }
    }
    crate::pending::lemma_timeout_resolves_and_removes(w.pending, e, now);
}

/// After a transport failure the session is closed, nothing is pending on
/// it, and it sends nothing more, whatever is asked of it.
pub proof fn lemma_failed_session_sends_nothing(
    v: SessionView,
    command_id: u64,
    opcode: Opcode,
    payload: Seq<u8>,
    ttl_ms: u32,
    now: u64,
)
    ensures
        after_failure(v).state == SessionState::Closed,
        after_failure(v).pending.len() == 0,
        send_outcome_with(after_failure(v), command_id, opcode, payload, ttl_ms) == Err::<(u64, Seq<u8>), SendError>(
            SendError::ConnectionLost,
        ),
        send_outcome(after_failure(v), opcode, payload, ttl_ms) == Err::<(u64, Seq<u8>), SendError>(
            SendError::ConnectionLost,
        ),
        after_send(after_failure(v), opcode, payload, ttl_ms, now) == after_failure(v),
{
}

/// Two requests sent one after the other on a session carry different
/// command ids.
pub proof fn lemma_ids_are_fresh(v: SessionView, op1: Opcode, p1: Seq<u8>, ttl1: u32, t1: u64, op2: Opcode, p2: Seq<
    u8,
>, ttl2: u32)
    requires
        send_outcome(v, op1, p1, ttl1) is Ok,
        send_outcome(after_send(v, op1, p1, ttl1, t1), op2, p2, ttl2) is Ok,
    ensures
        send_outcome(v, op1, p1, ttl1).unwrap().0 != send_outcome(
            after_send(v, op1, p1, ttl1, t1),
            op2,
            p2,
            ttl2,
        ).unwrap().0,
{
    let w = after_send(v, op1, p1, ttl1, t1);
    assert(w.pending.last().command_id == v.next_id);
    assert(has_id(w.pending, v.next_id));
}

} // verus!
