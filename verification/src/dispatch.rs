//! Routing of decoded commands, and the cache that makes requests idempotent.
//!
//! The dispatcher decides; whoever drives it runs the handler. A request is
//! looked up with [`Dispatcher::on_command`]; where that asks for a handler,
//! the request counts as running until the handler's result goes to
//! [`Dispatcher::finish`], which caches the response. A copy of the request
//! that arrives meanwhile starts no second handler.

use vstd::prelude::*;
use crate::command::{Command, CommandView, Direction, Opcode, MAX_PAYLOAD};
use crate::pending::deadline_after;

verus! {

/// Number of opcodes, and so of handler slots.
pub const OPCODES: usize = 7;

/// A response that was sent, kept for as long as the request was valid.
#[derive(Debug, PartialEq, Eq)]
pub struct CacheEntry {
    pub origin: u64,
    pub command_id: u64,
    pub expires_at: u64,
    pub response: Command,
}

pub ghost struct CacheEntryView {
    pub origin: u64,
    pub command_id: u64,
    pub expires_at: u64,
    pub response: CommandView,
}

impl View for CacheEntry {
    type V = CacheEntryView;

    open spec fn view(&self) -> CacheEntryView {
        CacheEntryView {
            origin: self.origin,
            command_id: self.command_id,
            expires_at: self.expires_at,
            response: self.response@,
        }
    }
}

/// The views of a run of cache entries.
pub open spec fn entry_views(v: Seq<CacheEntry>) -> Seq<CacheEntryView> {
    Seq::new(v.len(), |i: int| v[i]@)
}

/// The entries that have not expired at `now`.
pub open spec fn fresh_at(now: u64) -> spec_fn(CacheEntryView) -> bool {
    |e: CacheEntryView| e.expires_at > now
}

/// Whether `e` answers the request `command_id` of `origin` and has not
/// expired at `now`.
pub open spec fn answers(e: CacheEntryView, origin: u64, command_id: u64, now: u64) -> bool {
    e.origin == origin && e.command_id == command_id && e.expires_at > now
}

/// The cached response to the request `command_id` of `origin` at `now`: that
/// of the latest entry that answers it.
pub open spec fn cached(s: Seq<CacheEntryView>, origin: u64, command_id: u64, now: u64) -> Option<CommandView>
    decreases s.len(),
{
    if s.len() == 0 {
        None
    } else if answers(s.last(), origin, command_id, now) {
        Some(s.last().response)
    } else {
        cached(s.drop_last(), origin, command_id, now)
    }
}

/// The response to `request` for a handler's result: the payload under the
/// request's opcode, or the domain error under ERROR. A payload too large for
/// a frame becomes an empty ERROR.
pub open spec fn reply_for(request: CommandView, result: Result<Seq<u8>, Seq<u8>>) -> CommandView {
    match result {
        Ok(payload) => if payload.len() <= MAX_PAYLOAD {
            CommandView::answer(request, request.opcode, payload)
        } else {
            CommandView::answer(request, Opcode::Error, Seq::empty())
        },
        Err(detail) => if detail.len() <= MAX_PAYLOAD {
            CommandView::answer(request, Opcode::Error, detail)
        } else {
            CommandView::answer(request, Opcode::Error, Seq::empty())
        },
    }
}

/// Whether a command is a response that fits a frame.
pub open spec fn sendable(c: CommandView) -> bool {
    c.direction == Direction::Response && c.wf()
}

/// Every cached response can be sent as it is.
pub open spec fn all_sendable(s: Seq<CacheEntryView>) -> bool {
    forall|i: int| 0 <= i < s.len() ==> sendable((#[trigger] s[i]).response)
}

/// What a cache of sendable responses answers is sendable.
pub proof fn lemma_cached_is_sendable(s: Seq<CacheEntryView>, origin: u64, command_id: u64, now: u64)
    requires
        all_sendable(s),
    ensures
        cached(s, origin, command_id, now) is Some ==> sendable(cached(s, origin, command_id, now).unwrap()),
    decreases s.len(),
{
    if s.len() > 0 && !answers(s.last(), origin, command_id, now) {
        lemma_cached_is_sendable(s.drop_last(), origin, command_id, now);
    }
}

/// The cache after the response to `request`, handled at `now`, was stored.
pub open spec fn stored(
    s: Seq<CacheEntryView>,
    origin: u64,
    request: CommandView,
    result: Result<Seq<u8>, Seq<u8>>,
    now: u64,
) -> Seq<CacheEntryView> {
    s.push(
        CacheEntryView {
            origin,
            command_id: request.command_id,
            expires_at: deadline_after(now, request.ttl_ms),
            response: reply_for(request, result),
        },
    )
}

/// The ERROR response to a frame whose opcode is not known.
pub open spec fn unknown_opcode_reply(command_id: u64) -> CommandView {
    CommandView {
        opcode: Opcode::Error,
        command_id,
        ttl_ms: 0,
        direction: Direction::Response,
        correlation_id: command_id,
        payload: Seq::empty(),
    }
}

/// The slot of an opcode in the handler table.
pub open spec fn slot_of(opcode: Opcode) -> int {
    opcode.code() - 1
}

/// What to do with a decoded command.
#[derive(Debug, PartialEq, Eq)]
pub enum Action {
    /// A response: hand it to the pending table of the session it came on.
    Resolve { correlation_id: u64, response: Command },
    /// Send this response back; no handler runs.
    Reply(Command),
    /// Run the handler and hand its result to `finish`.
    Invoke { handler: u32, request: Command },
    /// A copy of a request whose handler is running: do nothing, the
    /// response to the first copy answers it.
    InProgress,
}

pub ghost enum ActionView {
    Resolve { correlation_id: u64, response: CommandView },
    Reply(CommandView),
    Invoke { handler: u32, request: CommandView },
    InProgress,
}

impl View for Action {
    type V = ActionView;

    open spec fn view(&self) -> ActionView {
        match *self {
            Action::Resolve { correlation_id, response } => ActionView::Resolve { correlation_id, response: response@ },
            Action::Reply(c) => ActionView::Reply(c@),
            Action::Invoke { handler, request } => ActionView::Invoke { handler, request: request@ },
            Action::InProgress => ActionView::InProgress,
        }
    }
}

/// The action for `cmd`, received from `origin` at `now`. A response is
/// resolved. A request that was answered before gets the same answer again;
/// one whose handler is running is left to it; any other goes to its opcode's
/// handler, or gets an empty ERROR where the opcode has none.
pub open spec fn decide(
    cache: Seq<CacheEntryView>,
    handlers: Seq<Option<u32>>,
    running: Seq<(u64, u64)>,
    origin: u64,
    cmd: CommandView,
    now: u64,
) -> ActionView {
    if cmd.direction == Direction::Response {
        ActionView::Resolve { correlation_id: cmd.correlation_id, response: cmd }
    } else {
        match cached(cache, origin, cmd.command_id, now) {
            Some(response) => ActionView::Reply(response),
            None => if running.contains((origin, cmd.command_id)) {
                ActionView::InProgress
            } else {
                match handlers[slot_of(cmd.opcode)] {
                    Some(handler) => ActionView::Invoke { handler, request: cmd },
                    None => ActionView::Reply(CommandView::answer(cmd, Opcode::Error, Seq::empty())),
                }
            },
        }
    }
}

/// The running requests after `cmd` was decided on: one for which a handler
/// was asked is running.
pub open spec fn running_after(
    cache: Seq<CacheEntryView>,
    handlers: Seq<Option<u32>>,
    running: Seq<(u64, u64)>,
    origin: u64,
    cmd: CommandView,
    now: u64,
) -> Seq<(u64, u64)> {
    if decide(cache, handlers, running, origin, cmd, now) is Invoke {
        running.push((origin, cmd.command_id))
    } else {
        running
    }
}

/// The requests other than `command_id` of `origin`.
pub open spec fn other_than(origin: u64, command_id: u64) -> spec_fn((u64, u64)) -> bool {
    |k: (u64, u64)| k != (origin, command_id)
}

/// Responses to recently handled requests, by origin and command id.
pub struct IdempotencyCache {
    entries: Vec<CacheEntry>,
}

impl View for IdempotencyCache {
    type V = Seq<CacheEntryView>;

    closed spec fn view(&self) -> Seq<CacheEntryView> {
        entry_views(self.entries@)
    }
}

impl IdempotencyCache {
    pub fn new() -> (c: IdempotencyCache)
        ensures
            c@ == Seq::<CacheEntryView>::empty(),
    {
        let c = IdempotencyCache { entries: Vec::new() };
        assert(c@ =~= Seq::<CacheEntryView>::empty());
        c
    }

    /// Number of entries held, expired ones included.
    pub fn len(&self) -> (n: usize)
        ensures
            n == self@.len(),
    {
        self.entries.len()
    }

    /// The cached response to the request `command_id` of `origin`, if one
    /// is held that has not expired at `now`.
    pub fn lookup(&self, origin: u64, command_id: u64, now: u64) -> (r: Option<Command>)
        ensures
            match r {
                Some(c) => cached(self@, origin, command_id, now) == Some(c@),
                None => cached(self@, origin, command_id, now) is None,
            },
    {
        let mut found: Option<usize> = None;
        let mut i: usize = 0;
        while i < self.entries.len()
            invariant
                i <= self.entries.len(),
                match found {
                    Some(k) => k < i && cached(self@.take(i as int), origin, command_id, now) == Some(
                        self@[k as int].response,
                    ),
                    None => cached(self@.take(i as int), origin, command_id, now) is None,
                },
            decreases self.entries.len() - i,
        {
            let e = &self.entries[i];
            proof {
                let next = self@.take(i + 1);
                assert(next.last() == self@[i as int]);
                assert(next.drop_last() =~= self@.take(i as int));
            }
            if e.origin == origin && e.command_id == command_id && e.expires_at > now {
                found = Some(i);
            }
            i += 1;
        }
        assert(self@.take(self@.len() as int) =~= self@);
        match found {
            Some(k) => Some(self.entries[k].response.clone()),
            None => None,
        }
    }

    /// Adds an entry. It takes precedence over older entries for the same
    /// request.
    pub fn store(&mut self, entry: CacheEntry)
        ensures
            final(self)@ == old(self)@.push(entry@),
    {
        self.entries.push(entry);
        assert(self@ =~= old(self)@.push(entry@));
    }

    /// Drops the entries that have expired at `now`.
    pub fn collect_garbage(&mut self, now: u64)
        ensures
            final(self)@ == old(self)@.filter(fresh_at(now)),
    {
        let mut kept: Vec<CacheEntry> = Vec::new();
        let mut i: usize = 0;
        proof {
            reveal(Seq::filter);
            assert(entry_views(kept@) =~= self@.take(0).filter(fresh_at(now)));
        }
        while i < self.entries.len()
            invariant
                i <= self.entries.len(),
                self@ == old(self)@,
                entry_views(kept@) == self@.take(i as int).filter(fresh_at(now)),
            decreases self.entries.len() - i,
        {
            let e = &self.entries[i];
            proof {
                let before = self@.take(i as int);
                assert(self@.take(i + 1) =~= before.push(e@));
                before.lemma_filter_push(e@, fresh_at(now));
            }
            if e.expires_at > now {
                let ghost earlier = kept@;
                let copy = CacheEntry {
                    origin: e.origin,
                    command_id: e.command_id,
                    expires_at: e.expires_at,
                    response: e.response.clone(),
                };
                kept.push(copy);
                assert(entry_views(kept@) =~= entry_views(earlier).push(e@));
            }
            i += 1;
        }
        assert(self@.take(self@.len() as int) =~= self@);
        self.entries = kept;
    }
}

/// Routes decoded commands and owns the idempotency cache.
pub struct Dispatcher {
    cache: IdempotencyCache,
    handlers: Vec<Option<u32>>,
    running: Vec<(u64, u64)>,
}

impl Dispatcher {
    /// The cache.
    pub closed spec fn cache(&self) -> Seq<CacheEntryView> {
        self.cache@
    }

    /// The handler registered for each opcode, by slot.
    pub closed spec fn handlers(&self) -> Seq<Option<u32>> {
        self.handlers@
    }

    /// The requests whose handler is running, by origin and command id.
    pub closed spec fn running(&self) -> Seq<(u64, u64)> {
        self.running@
    }

    /// There is one handler slot per opcode, and every cached response can
    /// be sent as it is.
    pub open spec fn wf(&self) -> bool {
        &&& self.handlers().len() == OPCODES
        &&& all_sendable(self.cache())
    }

    /// A dispatcher with an empty cache and no handlers.
    pub fn new() -> (d: Dispatcher)
        ensures
            d.wf(),
            d.cache() == Seq::<CacheEntryView>::empty(),
            d.handlers() == Seq::new(OPCODES as nat, |i: int| None::<u32>),
            d.running() == Seq::<(u64, u64)>::empty(),
    {
        let d = Dispatcher {
            cache: IdempotencyCache::new(),
            handlers: vec![None, None, None, None, None, None, None],
            running: Vec::new(),
        };
        assert(d.handlers@ =~= Seq::new(OPCODES as nat, |i: int| None::<u32>));
        d
    }

    /// Registers `handler` for `opcode`, in place of any earlier one.
    pub fn register_handler(&mut self, opcode: Opcode, handler: u32)
        requires
            old(self).wf(),
        ensures
            final(self).wf(),
            final(self).cache() == old(self).cache(),
            final(self).running() == old(self).running(),
            final(self).handlers() == old(self).handlers().update(slot_of(opcode), Some(handler)),
    {
        let slot: usize = (opcode.to_wire() - 1) as usize;
        self.handlers.set(slot, Some(handler));
    }

    fn is_running(&self, origin: u64, command_id: u64) -> (r: bool)
        ensures
            r == self.running().contains((origin, command_id)),
    {
        let mut i: usize = 0;
        while i < self.running.len()
            invariant
                i <= self.running.len(),
                forall|k: int| 0 <= k < i ==> self.running@[k] != (origin, command_id),
            decreases self.running.len() - i,
        {
            if self.running[i].0 == origin && self.running[i].1 == command_id {
                assert(self.running@[i as int] == (origin, command_id));
                return true;
            }
            i += 1;
        }
        false
    }

    /// Decides what to do with `cmd`, received from `origin` at `now`.
    pub fn on_command(&mut self, origin: u64, cmd: Command, now: u64) -> (a: Action)
        requires
            old(self).wf(),
        ensures
            final(self).wf(),
            final(self).cache() == old(self).cache(),
            final(self).handlers() == old(self).handlers(),
            a@ == decide(old(self).cache(), old(self).handlers(), old(self).running(), origin, cmd@, now),
            a@ matches ActionView::Reply(r) ==> sendable(r),
            final(self).running() == running_after(
                old(self).cache(),
                old(self).handlers(),
                old(self).running(),
                origin,
                cmd@,
                now,
            ),
    {
        if !cmd.is_request() {
            return Action::Resolve { correlation_id: cmd.correlation_id, response: cmd };
        }
        proof {
            lemma_cached_is_sendable(self.cache(), origin, cmd@.command_id, now);
        }
        match self.cache.lookup(origin, cmd.command_id, now) {
            Some(response) => Action::Reply(response),
            None => {
                if self.is_running(origin, cmd.command_id) {
                    return Action::InProgress;
                }
                let slot: usize = (cmd.opcode.to_wire() - 1) as usize;
                match self.handlers[slot] {
                    Some(handler) => {
                        self.running.push((origin, cmd.command_id));
                        Action::Invoke { handler, request: cmd }
                    },
                    None => Action::Reply(Command::answer(&cmd, Opcode::Error, Vec::new())),
                }
            },
        }
    }

    /// Takes the result of the handler that ran for `request`, received from
    /// `origin` and handled at `now`: caches the response for the request's
    /// ttl and returns it. The request is no longer running.
    pub fn finish(&mut self, origin: u64, request: &Command, result: Result<Vec<u8>, Vec<u8>>, now: u64) -> (response:
        Command)
        requires
            old(self).wf(),
        ensures
            final(self).wf(),
            final(self).handlers() == old(self).handlers(),
            response@ == reply_for(request@, result_view(result)),
            sendable(response@),
            final(self).cache() == stored(old(self).cache(), origin, request@, result_view(result), now),
            final(self).running() == old(self).running().filter(other_than(origin, request@.command_id)),
    {
        let mut still: Vec<(u64, u64)> = Vec::new();
        let mut i: usize = 0;
        proof {
            reveal(Seq::filter);
            assert(self.running@.take(0).filter(other_than(origin, request@.command_id)) =~= still@);
        }
        while i < self.running.len()
            invariant
                i <= self.running.len(),
                self.running@ == old(self).running@,
                still@ == self.running@.take(i as int).filter(other_than(origin, request@.command_id)),
            decreases self.running.len() - i,
        {
            let k = self.running[i];
            proof {
                let before = self.running@.take(i as int);
                assert(self.running@.take(i + 1) =~= before.push(k));
                before.lemma_filter_push(k, other_than(origin, request@.command_id));
            }
            if !(k.0 == origin && k.1 == request.command_id) {
                still.push(k);
            }
            i += 1;
        }
        assert(self.running@.take(self.running@.len() as int) =~= self.running@);
        self.running = still;
        let response = match result {
            Ok(payload) => if payload.len() <= MAX_PAYLOAD {
                Command::answer(request, request.opcode, payload)
            } else {
                Command::answer(request, Opcode::Error, Vec::new())
            },
            Err(detail) => if detail.len() <= MAX_PAYLOAD {
                Command::answer(request, Opcode::Error, detail)
            } else {
                Command::answer(request, Opcode::Error, Vec::new())
            },
        };
        let ttl: u64 = request.ttl_ms as u64;
        let expires_at: u64 = if now > u64::MAX - ttl {
            u64::MAX
        } else {
            now + ttl
        };
        let copy = response.clone();
        self.cache.store(CacheEntry { origin, command_id: request.command_id, expires_at, response: copy });
        response
    }

    /// The ERROR response to a frame whose opcode is not known.
    pub fn on_unknown_opcode(command_id: u64) -> (response: Command)
        ensures
            response@ == unknown_opcode_reply(command_id),
            sendable(response@),
    {
        Command {
            opcode: Opcode::Error,
            command_id,
            ttl_ms: 0,
            direction: Direction::Response,
            correlation_id: command_id,
            payload: Vec::new(),
        }
    }

    /// Drops the cached responses that have expired at `now`.
    pub fn collect_garbage(&mut self, now: u64)
        requires
            old(self).wf(),
        ensures
            final(self).wf(),
            final(self).handlers() == old(self).handlers(),
            final(self).running() == old(self).running(),
            final(self).cache() == old(self).cache().filter(fresh_at(now)),
    {
        proof {
            let before = self.cache();
            let after = before.filter(fresh_at(now));
            assert forall|i: int| 0 <= i < after.len() implies sendable((#[trigger] after[i]).response) by {
                assert(after.contains(after[i]));
                before.lemma_filter_contains_rev(fresh_at(now), after[i]);
            }
        }
        self.cache.collect_garbage(now);
    }
}

/// The mathematical value of a handler's result.
pub open spec fn result_view(result: Result<Vec<u8>, Vec<u8>>) -> Result<Seq<u8>, Seq<u8>> {
    match result {
        Ok(payload) => Ok(payload@),
        Err(detail) => Err(detail@),
    }
}

/// Dropping expired entries changes no lookup made then or later.
pub proof fn lemma_garbage_is_invisible(s: Seq<CacheEntryView>, origin: u64, command_id: u64, swept_at: u64, now: u64)
    requires
        swept_at <= now,
    ensures
        cached(s.filter(fresh_at(swept_at)), origin, command_id, now) == cached(s, origin, command_id, now),
    decreases s.len(),
{
    reveal(Seq::filter);
    if s.len() > 0 {
        lemma_garbage_is_invisible(s.drop_last(), origin, command_id, swept_at, now);
        let f = s.drop_last().filter(fresh_at(swept_at));
        if fresh_at(swept_at)(s.last()) {
            assert(f.push(s.last()).drop_last() =~= f);
        }
    }
}

/// A request that is delivered again within its ttl, after it was handled,
/// gets the response it got the first time, correlated with it, and no
/// handler runs for it: nothing starts running.
pub proof fn lemma_redelivery_is_idempotent(
    cache: Seq<CacheEntryView>,
    handlers: Seq<Option<u32>>,
    running: Seq<(u64, u64)>,
    origin: u64,
    request: CommandView,
    result: Result<Seq<u8>, Seq<u8>>,
    handled_at: u64,
    now: u64,
)
    requires
        request.direction == Direction::Request,
        now < deadline_after(handled_at, request.ttl_ms),
    ensures
        decide(stored(cache, origin, request, result, handled_at), handlers, running, origin, request, now)
            == ActionView::Reply(reply_for(request, result)),
        running_after(stored(cache, origin, request, result, handled_at), handlers, running, origin, request, now)
            == running,
        reply_for(request, result).direction == Direction::Response,
        reply_for(request, result).correlation_id == request.command_id,
{
    let after = stored(cache, origin, request, result, handled_at);
    assert(answers(after.last(), origin, request.command_id, now));
}

/// A request for which a handler was asked is running, and while it is, no
/// copy of it starts another handler, whenever the copy arrives.
pub proof fn lemma_handler_runs_once(
    cache: Seq<CacheEntryView>,
    handlers: Seq<Option<u32>>,
    running: Seq<(u64, u64)>,
    origin: u64,
    request: CommandView,
    first: u64,
    again: u64,
)
    requires
        decide(cache, handlers, running, origin, request, first) is Invoke,
    ensures
        running_after(cache, handlers, running, origin, request, first).contains((origin, request.command_id)),
        !(decide(
            cache,
            handlers,
            running_after(cache, handlers, running, origin, request, first),
            origin,
            request,
            again,
        ) is Invoke),
{
    let after = running_after(cache, handlers, running, origin, request, first);
    assert(after.last() == (origin, request.command_id));
}

/// Once a request is finished it is no longer running, and every other
/// request runs on.
pub proof fn lemma_finish_is_local(running: Seq<(u64, u64)>, origin: u64, command_id: u64, other: (u64, u64))
    requires
        other != (origin, command_id),
    ensures
        !running.filter(other_than(origin, command_id)).contains((origin, command_id)),
        running.filter(other_than(origin, command_id)).contains(other) == running.contains(other),
{
    let f = running.filter(other_than(origin, command_id));
    if f.contains((origin, command_id)) {
        let i = choose|i: int| 0 <= i < f.len() && f[i] == (origin, command_id);
        running.lemma_filter_pred(other_than(origin, command_id), i);
    }
    if f.contains(other) {
        running.lemma_filter_contains_rev(other_than(origin, command_id), other);
    }
    if running.contains(other) {
        let i = choose|i: int| 0 <= i < running.len() && running[i] == other;
        running.lemma_filter_contains(other_than(origin, command_id), i);
    }
}

/// Storing the response to one request changes the answer to no other.
pub proof fn lemma_store_is_local(
    cache: Seq<CacheEntryView>,
    origin: u64,
    request: CommandView,
    result: Result<Seq<u8>, Seq<u8>>,
    handled_at: u64,
    other_origin: u64,
    other_id: u64,
    now: u64,
)
    requires
        other_origin != origin || other_id != request.command_id,
    ensures
        cached(stored(cache, origin, request, result, handled_at), other_origin, other_id, now) == cached(
            cache,
            other_origin,
            other_id,
            now,
        ),
{
    let after = stored(cache, origin, request, result, handled_at);
    assert(after.drop_last() =~= cache);
}

} // verus!
