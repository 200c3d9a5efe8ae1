//! The sessions a process holds, one per known peer, by the order in which
//! they were registered.

use vstd::prelude::*;
use crate::command::{copy_bytes, Opcode};
use crate::pending::{due_at, live_at, resolved_with, views, OutcomeView, Resolution};
use crate::session::{
    after_failure, after_send, fresh_session, send_outcome, successor_of, Outbound, SendError, Session, SessionState,
    SessionView,
};

verus! {

/// The views of a run of sessions.
pub open spec fn session_views(v: Seq<Session>) -> Seq<SessionView> {
    Seq::new(v.len(), |i: int| v[i]@)
}

/// The session after a broadcast: an open one has sent, any other is as it
/// was.
pub open spec fn after_broadcast(v: SessionView, opcode: Opcode, payload: Seq<u8>, ttl_ms: u32, now: u64) -> SessionView {
    if v.state == SessionState::Open {
        after_send(v, opcode, payload, ttl_ms, now)
    } else {
        v
    }
}

/// Whether `d` is what a broadcast reports for a session of value `v`:
/// nothing for one that is not open, the result of the send for one that is.
pub open spec fn reports(
    d: Option<Result<Outbound, SendError>>,
    v: SessionView,
    opcode: Opcode,
    payload: Seq<u8>,
    ttl_ms: u32,
) -> bool {
    match d {
        None => v.state != SessionState::Open,
        Some(Ok(o)) => v.state == SessionState::Open && send_outcome(v, opcode, payload, ttl_ms) == Ok::<
            (u64, Seq<u8>),
            SendError,
        >((o.command_id, o.frame@)),
        Some(Err(e)) => v.state == SessionState::Open && send_outcome(v, opcode, payload, ttl_ms) == Err::<
            (u64, Seq<u8>),
            SendError,
        >(e),
    }
}

/// `base` doubled `attempt` times.
pub open spec fn doubled(base: int, attempt: nat) -> int
    decreases attempt,
{
    if attempt == 0 {
        base
    } else {
        2 * doubled(base, (attempt - 1) as nat)
    }
}

/// The longest wait before reconnection attempt number `attempt`, counted
/// from zero: the base doubled for each earlier attempt, up to the cap.
pub open spec fn backoff_ceiling(attempt: u32, base_ms: u64, cap_ms: u64) -> int {
    if doubled(base_ms as int, attempt as nat) < cap_ms {
        doubled(base_ms as int, attempt as nat)
    } else {
        cap_ms as int
    }
}

/// The wait before reconnection attempt number `attempt`: half the ceiling,
/// and of the other half as much as `jitter` picks.
pub open spec fn backoff(attempt: u32, base_ms: u64, cap_ms: u64, jitter: u64) -> int {
    let ceiling = backoff_ceiling(attempt, base_ms, cap_ms);
    ceiling - ceiling / 2 + (jitter as int) % (ceiling / 2 + 1)
}

/// The wait, in milliseconds, before reconnection attempt number `attempt`.
/// The caller draws `jitter` at random.
pub fn backoff_delay(attempt: u32, base_ms: u64, cap_ms: u64, jitter: u64) -> (delay: u64)
    ensures
        delay == backoff(attempt, base_ms, cap_ms, jitter),
        backoff_ceiling(attempt, base_ms, cap_ms) - backoff_ceiling(attempt, base_ms, cap_ms) / 2 <= delay
            <= backoff_ceiling(attempt, base_ms, cap_ms) <= cap_ms,
{
    let mut ceiling: u64 = if base_ms < cap_ms {
        base_ms
    } else {
        cap_ms
    };
    let mut i: u32 = 0;
    while i < attempt
        invariant
            i <= attempt,
            ceiling == backoff_ceiling(i, base_ms, cap_ms),
        decreases attempt - i,
    {
        assert(doubled(base_ms as int, (i + 1) as nat) == 2 * doubled(base_ms as int, i as nat));
        ceiling = if ceiling >= cap_ms - ceiling {
            cap_ms
        } else {
            ceiling + ceiling
        };
        i += 1;
    }
    let half: u64 = ceiling / 2;
    ceiling - half + jitter % (half + 1)
}

/// The sessions of one process.
pub struct PeerRegistry {
    sessions: Vec<Session>,
}

impl View for PeerRegistry {
    type V = Seq<SessionView>;

    closed spec fn view(&self) -> Seq<SessionView> {
        session_views(self.sessions@)
    }
}

impl PeerRegistry {
    /// Every session is well formed.
    pub closed spec fn wf(&self) -> bool {
        forall|i: int| 0 <= i < self.sessions@.len() ==> (#[trigger] self.sessions@[i]).wf()
    }

    pub fn new() -> (r: PeerRegistry)
        ensures
            r.wf(),
            r@ == Seq::<SessionView>::empty(),
    {
        let r = PeerRegistry { sessions: Vec::new() };
        assert(r@ =~= Seq::<SessionView>::empty());
        r
    }

    /// Number of sessions, closed ones included.
    pub fn len(&self) -> (n: usize)
        ensures
            n == self@.len(),
    {
        self.sessions.len()
    }

    /// The session at `index`.
    pub fn session(&self, index: usize) -> (s: &Session)
        requires
            self.wf(),
            index < self@.len(),
        ensures
            s@ == self@[index as int],
            s.wf(),
    {
        &self.sessions[index]
    }

    /// Registers a session to `peer` that is being established, and returns
    /// its index.
    pub fn connect(&mut self, peer: u64) -> (index: usize)
        requires
            old(self).wf(),
        ensures
            final(self).wf(),
            index == old(self)@.len(),
            final(self)@ == old(self)@.push(fresh_session(peer)),
    {
        let index = self.sessions.len();
        let s = Session::new(peer);
        self.sessions.push(s);
        assert(self@ =~= old(self)@.push(s@));
        index
    }

    /// Puts `session` in the place of the one at `index` and returns that
    /// one. No other session changes.
    pub fn swap(&mut self, index: usize, session: Session) -> (out: Session)
        requires
            old(self).wf(),
            session.wf(),
            index < old(self)@.len(),
        ensures
            final(self).wf(),
            out.wf(),
            out@ == old(self)@[index as int],
            final(self)@ == old(self)@.update(index as int, session@),
    {
        let out = self.sessions.remove(index);
        self.sessions.insert(index, session);
        assert(self.sessions@ =~= old(self).sessions@.update(index as int, session));
        assert(self@ =~= old(self)@.update(index as int, session@));
        out
    }

    /// The transport of the session at `index` has come up.
    pub fn opened(&mut self, index: usize)
        requires
            old(self).wf(),
            index < old(self)@.len(),
        ensures
            final(self).wf(),
            final(self)@ == old(self)@.update(
                index as int,
                SessionView {
                    state: if old(self)@[index as int].state == SessionState::Connecting {
                        SessionState::Open
                    } else {
                        old(self)@[index as int].state
                    },
                    ..old(self)@[index as int]
                },
            ),
    {
        let mut s = self.sessions.remove(index);
        s.opened();
        self.sessions.insert(index, s);
        assert(self.sessions@ =~= old(self).sessions@.update(index as int, s));
        assert(self@ =~= old(self)@.update(index as int, s@));
    }

    /// The transport of the session at `index` failed: that session closes
    /// and each of its pending requests ends with a lost connection. Every
    /// other session is as it was.
    pub fn fail_session(&mut self, index: usize) -> (out: Vec<Resolution>)
        requires
            old(self).wf(),
            index < old(self)@.len(),
        ensures
            final(self).wf(),
            final(self)@ == old(self)@.update(index as int, after_failure(old(self)@[index as int])),
            forall|j: int| 0 <= j < old(self)@.len() && j != index ==> final(self)@[j] == old(self)@[j],
            views(out@) == resolved_with(old(self)@[index as int].pending, OutcomeView::ConnectionLost),
            out@.len() == old(self)@[index as int].pending.len(),
    {
        let mut s = self.sessions.remove(index);
        let out = s.fail();
        self.sessions.insert(index, s);
        assert(self.sessions@ =~= old(self).sessions@.update(index as int, s));
        assert(self@ =~= old(self)@.update(index as int, s@));
        out
    }

    /// Puts a new session to the same peer in the place of the one at
    /// `index`, if that one is closed. Says whether it was.
    pub fn reconnect(&mut self, index: usize) -> (r: bool)
        requires
            old(self).wf(),
            index < old(self)@.len(),
        ensures
            final(self).wf(),
            r == (old(self)@[index as int].state == SessionState::Closed),
            final(self)@ == (if r {
                old(self)@.update(index as int, successor_of(old(self)@[index as int]))
            } else {
                old(self)@
            }),
    {
        match self.sessions[index].state() {
            SessionState::Closed => {
                let next = self.sessions[index].successor();
                self.sessions.set(index, next);
                assert(self@ =~= old(self)@.update(index as int, next@));
                true
            },
            _ => false,
        }
    }

    /// Sweeps every session at `now`: each pending request whose deadline
    /// has passed ends with a timeout. The report has one place per session,
    /// in order.
    pub fn sweep_all(&mut self, now: u64) -> (out: Vec<Vec<Resolution>>)
        requires
            old(self).wf(),
        ensures
            final(self).wf(),
            final(self)@.len() == old(self)@.len(),
            out@.len() == old(self)@.len(),
            forall|j: int|
                0 <= j < old(self)@.len() ==> #[trigger] final(self)@[j] == (SessionView {
                    pending: old(self)@[j].pending.filter(live_at(now)),
                    ..old(self)@[j]
                }),
            forall|j: int|
                0 <= j < old(self)@.len() ==> views((#[trigger] out@[j])@) == resolved_with(
                    old(self)@[j].pending.filter(due_at(now)),
                    OutcomeView::Timeout,
                ),
    {
        let mut out: Vec<Vec<Resolution>> = Vec::new();
        let n = self.sessions.len();
        let mut i: usize = 0;
        while i < n
            invariant
                i <= n,
                n == self.sessions@.len(),
                n == old(self)@.len(),
                self.wf(),
                out@.len() == i,
                forall|j: int|
                    0 <= j < i ==> #[trigger] self@[j] == (SessionView {
                        pending: old(self)@[j].pending.filter(live_at(now)),
                        ..old(self)@[j]
                    }),
                forall|j: int| i <= j < n ==> #[trigger] self@[j] == old(self)@[j],
                forall|j: int|
                    0 <= j < i ==> views((#[trigger] out@[j])@) == resolved_with(
                        old(self)@[j].pending.filter(due_at(now)),
                        OutcomeView::Timeout,
                    ),
            decreases n - i,
        {
            let ghost before = self.sessions@;
            let ghost before_views = self@;
            assert(before_views[i as int] == old(self)@[i as int]);
            let mut s = self.sessions.remove(i);
            let ends = s.sweep(now);
            self.sessions.insert(i, s);
            assert(self.sessions@ =~= before.update(i as int, s));
            assert(self@ =~= before_views.update(i as int, s@));
            out.push(ends);
            i += 1;
        }
        out
    }

    /// The indices of the closed sessions, in order: those to reconnect.
    pub fn lost(&self) -> (out: Vec<usize>)
        requires
            self.wf(),
        ensures
            forall|k: int| 0 <= k < out@.len() ==> 0 <= #[trigger] out@[k] < self@.len() && self@[out@[k] as int].state
                == SessionState::Closed,
            forall|j: int|
                0 <= j < self@.len() && (#[trigger] self@[j]).state == SessionState::Closed ==> out@.contains(
                    j as usize,
                ),
            forall|k: int, l: int| 0 <= k < l < out@.len() ==> out@[k] < out@[l],
    {
        let mut out: Vec<usize> = Vec::new();
        let mut i: usize = 0;
        while i < self.sessions.len()
            invariant
                i <= self.sessions.len(),
                self.wf(),
                forall|k: int| 0 <= k < out@.len() ==> 0 <= #[trigger] out@[k] < i && self@[out@[k] as int].state
                    == SessionState::Closed,
                forall|j: int|
                    0 <= j < i && (#[trigger] self@[j]).state == SessionState::Closed ==> out@.contains(j as usize),
                forall|k: int, l: int| 0 <= k < l < out@.len() ==> out@[k] < out@[l],
            decreases self.sessions.len() - i,
        {
            let ghost earlier = out@;
            match self.sessions[i].state() {
                SessionState::Closed => {
                    out.push(i);
                    assert(out@[earlier.len() as int] == i);
                    assert forall|j: int|
                        0 <= j < i + 1 && (#[trigger] self@[j]).state == SessionState::Closed implies out@.contains(
                        j as usize,
                    ) by {
                        if j < i {
                            let k = choose|k: int| 0 <= k < earlier.len() && earlier[k] == j as usize;
                            assert(out@[k] == j as usize);
                        }
                    }
                },
                _ => {},
            }
            i += 1;
        }
        out
    }

    /// Sends one request to every open session at `now`. The report has one
    /// place per session, in order; a send that fails on one session changes
    /// nothing for another.
    pub fn broadcast(&mut self, opcode: Opcode, payload: &Vec<u8>, ttl_ms: u32, now: u64) -> (out: Vec<
        Option<Result<Outbound, SendError>>,
    >)
        requires
            old(self).wf(),
        ensures
            final(self).wf(),
            final(self)@.len() == old(self)@.len(),
            out@.len() == old(self)@.len(),
            forall|j: int|
                0 <= j < old(self)@.len() ==> #[trigger] final(self)@[j] == after_broadcast(
                    old(self)@[j],
                    opcode,
                    payload@,
                    ttl_ms,
                    now,
                ),
            forall|j: int|
                0 <= j < old(self)@.len() ==> reports(#[trigger] out@[j], old(self)@[j], opcode, payload@, ttl_ms),
    {
        let mut out: Vec<Option<Result<Outbound, SendError>>> = Vec::new();
        let n = self.sessions.len();
        let mut i: usize = 0;
        while i < n
            invariant
                i <= n,
                n == self.sessions@.len(),
                n == old(self)@.len(),
                self.wf(),
                out@.len() == i,
                forall|j: int|
                    0 <= j < i ==> #[trigger] self@[j] == after_broadcast(old(self)@[j], opcode, payload@, ttl_ms, now),
                forall|j: int| i <= j < n ==> #[trigger] self@[j] == old(self)@[j],
                forall|j: int| 0 <= j < i ==> reports(#[trigger] out@[j], old(self)@[j], opcode, payload@, ttl_ms),
            decreases n - i,
        {
            let ghost before = self.sessions@;
            let ghost before_views = self@;
            assert(before_views[i as int] == old(self)@[i as int]);
            if self.sessions[i].is_open() {
                let mut s = self.sessions.remove(i);
                let r = s.send_request(opcode, copy_bytes(payload), ttl_ms, now);
                self.sessions.insert(i, s);
                assert(self.sessions@ =~= before.update(i as int, s));
                assert(self@ =~= before_views.update(i as int, s@));
                out.push(Some(r));
            } else {
                out.push(None);
            }
            i += 1;
        }
        out
    }
}

} // verus!
