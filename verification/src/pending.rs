//! The table of requests that were sent and are still waiting for a response.
//!
//! An entry leaves the table when it is resolved: by its response, by its
//! deadline, by cancellation, or when the session closes. Whoever removes the
//! entry gets the resolution to deliver, so that each request is resolved at
//! most once.

use vstd::prelude::*;
use crate::command::{Command, CommandView};

verus! {

/// One request in flight.
#[derive(Clone, Copy, Debug, PartialEq, Eq, Structural)]
pub struct PendingRequest {
    pub command_id: u64,
    pub issued_at: u64,
    pub deadline: u64,
}

/// How a request ended.
#[derive(Debug, PartialEq, Eq)]
pub enum Outcome {
    Response(Command),
    Timeout,
    ConnectionLost,
}

pub ghost enum OutcomeView {
    Response(CommandView),
    Timeout,
    ConnectionLost,
}

impl View for Outcome {
    type V = OutcomeView;

    open spec fn view(&self) -> OutcomeView {
        match *self {
            Outcome::Response(c) => OutcomeView::Response(c@),
            Outcome::Timeout => OutcomeView::Timeout,
            Outcome::ConnectionLost => OutcomeView::ConnectionLost,
        }
    }
}

/// The end of one request, to be delivered to whoever waits for it.
#[derive(Debug, PartialEq, Eq)]
pub struct Resolution {
    pub command_id: u64,
    pub outcome: Outcome,
}

pub ghost struct ResolutionView {
    pub command_id: u64,
    pub outcome: OutcomeView,
}

impl View for Resolution {
    type V = ResolutionView;

    open spec fn view(&self) -> ResolutionView {
        ResolutionView { command_id: self.command_id, outcome: self.outcome@ }
    }
}

/// Why a request could not be registered.
#[derive(Clone, Copy, Debug, PartialEq, Eq, Structural)]
pub enum RegisterError {
    DuplicateId,
}

/// No two entries share a command id.
pub open spec fn ids_distinct(s: Seq<PendingRequest>) -> bool {
    forall|i: int, j: int| 0 <= i < j < s.len() ==> (#[trigger] s[i]).command_id != (#[trigger] s[j]).command_id
}

/// Some entry has this command id.
pub open spec fn has_id(s: Seq<PendingRequest>, id: u64) -> bool {
    exists|i: int| 0 <= i < s.len() && (#[trigger] s[i]).command_id == id
}

/// The place of the entry with this command id.
pub open spec fn index_of(s: Seq<PendingRequest>, id: u64) -> int {
    choose|i: int| 0 <= i < s.len() && (#[trigger] s[i]).command_id == id
}

/// The entries without the one that has this command id.
pub open spec fn removed(s: Seq<PendingRequest>, id: u64) -> Seq<PendingRequest> {
    if has_id(s, id) {
        s.remove(index_of(s, id))
    } else {
        s
    }
}

/// The moment a request issued at `now` with this ttl stops waiting.
pub open spec fn deadline_after(now: u64, ttl_ms: u32) -> u64 {
    if now + ttl_ms > u64::MAX {
        u64::MAX
    } else {
        (now + ttl_ms) as u64
    }
}

/// The entries whose deadline lies after `now`.
pub open spec fn live_at(now: u64) -> spec_fn(PendingRequest) -> bool {
    |e: PendingRequest| e.deadline > now
}

/// The entries whose deadline has passed at `now`.
pub open spec fn due_at(now: u64) -> spec_fn(PendingRequest) -> bool {
    |e: PendingRequest| e.deadline <= now
}

/// The views of a run of resolutions.
pub open spec fn views(v: Seq<Resolution>) -> Seq<ResolutionView> {
    Seq::new(v.len(), |i: int| v[i]@)
}

/// One resolution with `outcome` for each entry, in order.
pub open spec fn resolved_with(s: Seq<PendingRequest>, outcome: OutcomeView) -> Seq<ResolutionView> {
    Seq::new(s.len(), |i: int| ResolutionView { command_id: s[i].command_id, outcome })
}

/// What a response for `id` that arrives at `now` resolves: nothing when no
/// entry waits for it; a timeout when the entry's deadline has passed; the
/// response otherwise.
pub open spec fn completion(s: Seq<PendingRequest>, id: u64, response: CommandView, now: u64) -> Option<
    ResolutionView,
> {
    if !has_id(s, id) {
        None
    } else if s[index_of(s, id)].deadline <= now {
        Some(ResolutionView { command_id: id, outcome: OutcomeView::Timeout })
    } else {
        Some(ResolutionView { command_id: id, outcome: OutcomeView::Response(response) })
    }
}

/// Filtering keeps command ids distinct.
pub proof fn lemma_filter_distinct(s: Seq<PendingRequest>, pred: spec_fn(PendingRequest) -> bool)
    requires
        ids_distinct(s),
    ensures
        ids_distinct(s.filter(pred)),
    decreases s.len(),
{
    reveal(Seq::filter);
    if s.len() > 0 {
        let r = s.drop_last();
        lemma_filter_distinct(r, pred);
        let f = r.filter(pred);
        if pred(s.last()) {
            let g = f.push(s.last());
            assert forall|i: int, j: int| 0 <= i < j < g.len() implies (#[trigger] g[i]).command_id != (
            #[trigger] g[j]).command_id by {
                if j == f.len() {
                    assert(f.contains(f[i]));
                    r.lemma_filter_contains_rev(pred, f[i]);
                    let k = choose|k: int| 0 <= k < r.len() && r[k] == f[i];
                    assert(s[k] == r[k]);
                } else {
                    assert(g[i] == f[i] && g[j] == f[j]);
                }
            }
        }
    }
}

/// Removing the entry for an id leaves no entry for it and touches no other.
pub proof fn lemma_removed(s: Seq<PendingRequest>, id: u64)
    requires
        ids_distinct(s),
    ensures
        ids_distinct(removed(s, id)),
        !has_id(removed(s, id), id),
        forall|other: u64| other != id ==> has_id(removed(s, id), other) == has_id(s, other),
        forall|e: PendingRequest| e.command_id != id ==> removed(s, id).contains(e) == s.contains(e),
        removed(s, id).len() == if has_id(s, id) {
            s.len() - 1
        } else {
            s.len() as int
        },
{
    let t = removed(s, id);
    if has_id(s, id) {
        let k = index_of(s, id);
        assert forall|i: int| 0 <= i < t.len() implies #[trigger] t[i] == s[if i < k { i } else { i + 1 }] by {}
        assert forall|i: int, j: int| 0 <= i < j < t.len() implies (#[trigger] t[i]).command_id != (
        #[trigger] t[j]).command_id by {
            let a = if i < k { i } else { i + 1 };
            let b = if j < k { j } else { j + 1 };
            assert(t[i] == s[a] && t[j] == s[b]);
        }
        if has_id(t, id) {
            let i = index_of(t, id);
            let a = if i < k { i } else { i + 1 };
            assert(t[i] == s[a]);
            assert(s[a].command_id == s[k].command_id);
            assert(false);
        }
        assert forall|e: PendingRequest| e.command_id != id implies t.contains(e) == s.contains(e) by {
            if t.contains(e) {
                let i = choose|i: int| 0 <= i < t.len() && t[i] == e;
                let a = if i < k { i } else { i + 1 };
                assert(s[a] == e);
            }
            if s.contains(e) {
                let a = choose|a: int| 0 <= a < s.len() && s[a] == e;
                assert(a != k);
                let i = if a < k { a } else { a - 1 };
                assert(t[i] == e);
            }
        }
        assert forall|other: u64| other != id implies has_id(t, other) == has_id(s, other) by {
            if has_id(t, other) {
                let i = index_of(t, other);
                let a = if i < k { i } else { i + 1 };
                assert(s[a] == t[i]);
            }
            if has_id(s, other) {
                let a = index_of(s, other);
                let i = if a < k { a } else { a - 1 };
                assert(t[i] == s[a]);
            }
        }
    }
}

proof fn lemma_push_resolution(
    v: Seq<Resolution>,
    x: Resolution,
    s: Seq<PendingRequest>,
    e: PendingRequest,
    outcome: OutcomeView,
)
    requires
        views(v) == resolved_with(s, outcome),
        x@ == (ResolutionView { command_id: e.command_id, outcome }),
    ensures
        views(v.push(x)) == resolved_with(s.push(e), outcome),
{
    assert(views(v).len() == v.len());
    assert(resolved_with(s, outcome).len() == s.len());
    assert forall|i: int| 0 <= i < v.len() implies views(v.push(x))[i] == resolved_with(s.push(e), outcome)[i] by {
        assert(v.len() == s.len());
        assert(views(v)[i] == v[i]@);
        assert(resolved_with(s, outcome)[i] == ResolutionView { command_id: s[i].command_id, outcome });
        assert(v.push(x)[i] == v[i]);
        assert(s.push(e)[i] == s[i]);
        assert(views(v.push(x))[i] == v.push(x)[i]@);
        assert(resolved_with(s.push(e), outcome)[i] == ResolutionView {
            command_id: s.push(e)[i].command_id,
            outcome,
        });
    }
    assert(views(v.push(x)) =~= resolved_with(s.push(e), outcome));
}

/// The requests in flight of one session.
pub struct PendingTable {
    entries: Vec<PendingRequest>,
}

impl View for PendingTable {
    type V = Seq<PendingRequest>;

    closed spec fn view(&self) -> Seq<PendingRequest> {
        self.entries@
    }
}

impl PendingTable {
    /// No command id is pending twice.
    pub open spec fn wf(&self) -> bool {
        ids_distinct(self@)
    }

    /// Whether a request with this id is pending.
    pub open spec fn has(&self, id: u64) -> bool {
        has_id(self@, id)
    }

    pub fn new() -> (t: PendingTable)
        ensures
            t@ == Seq::<PendingRequest>::empty(),
            t.wf(),
    {
        PendingTable { entries: Vec::new() }
    }

    /// Number of pending requests.
    pub fn len(&self) -> (n: usize)
        ensures
            n == self@.len(),
    {
        self.entries.len()
    }

    fn find(&self, id: u64) -> (r: Option<usize>)
        requires
            self.wf(),
        ensures
            match r {
                Some(i) => has_id(self@, id) && i == index_of(self@, id) && i < self@.len(),
                None => !has_id(self@, id),
            },
    {
        let mut i: usize = 0;
        while i < self.entries.len()
            invariant
                i <= self.entries.len(),
                self.wf(),
                forall|k: int| 0 <= k < i ==> (#[trigger] self@[k]).command_id != id,
            decreases self.entries.len() - i,
        {
            if self.entries[i].command_id == id {
                proof {
                    assert(self@[i as int].command_id == id);
                    assert(has_id(self@, id));
                    let j = index_of(self@, id);
                    assert(self@[j].command_id == id);
                    assert(j == i);
                }
                return Some(i);
            }
            i += 1;
        }
        None
    }

    /// Whether a request with this id is pending.
    pub fn contains(&self, id: u64) -> (r: bool)
        requires
            self.wf(),
        ensures
            r == self.has(id),
    {
        self.find(id).is_some()
    }

    /// The pending entry for this id, if there is one.
    pub fn get(&self, id: u64) -> (r: Option<PendingRequest>)
        requires
            self.wf(),
        ensures
            r is Some == self.has(id),
            r is Some ==> r.unwrap() == self@[index_of(self@, id)],
    {
        match self.find(id) {
            Some(i) => Some(self.entries[i]),
            None => None,
        }
    }

    /// Registers a request issued at `now`. It fails when the id is pending
    /// already, and then leaves the table as it was.
    pub fn register(&mut self, command_id: u64, ttl_ms: u32, now: u64) -> (r: Result<PendingRequest, RegisterError>)
        requires
            old(self).wf(),
        ensures
            final(self).wf(),
            r is Err == old(self).has(command_id),
            r is Err ==> final(self)@ == old(self)@,
            r is Ok ==> r.unwrap() == (PendingRequest {
                command_id,
                issued_at: now,
                deadline: deadline_after(now, ttl_ms),
            }) && final(self)@ == old(self)@.push(r.unwrap()),
            final(self).has(command_id),
    {
        match self.find(command_id) {
            Some(i) => {
                assert(self@[i as int].command_id == command_id);
                Err(RegisterError::DuplicateId)
            },
            None => {
                let deadline: u64 = if now > u64::MAX - (ttl_ms as u64) {
                    u64::MAX
                } else {
                    now + ttl_ms as u64
                };
                let entry = PendingRequest { command_id, issued_at: now, deadline };
                self.entries.push(entry);
                assert(self@[self@.len() - 1].command_id == command_id);
                Ok(entry)
            },
        }
    }

    /// Resolves the request that `response` answers and removes its entry.
    /// A response that no entry waits for is dropped.
    pub fn complete(&mut self, correlation_id: u64, response: Command, now: u64) -> (r: Option<Resolution>)
        requires
            old(self).wf(),
        ensures
            final(self).wf(),
            final(self)@ == removed(old(self)@, correlation_id),
            !final(self).has(correlation_id),
            match r {
                Some(x) => completion(old(self)@, correlation_id, response@, now) == Some(x@),
                None => completion(old(self)@, correlation_id, response@, now) is None,
            },
    {
        proof {
            lemma_removed(self@, correlation_id);
        }
        match self.find(correlation_id) {
            Some(i) => {
                let entry = self.entries.remove(i);
                if entry.deadline <= now {
                    Some(Resolution { command_id: correlation_id, outcome: Outcome::Timeout })
                } else {
                    Some(Resolution { command_id: correlation_id, outcome: Outcome::Response(response) })
                }
            },
            None => None,
        }
    }

    /// Removes the entry for this id without resolving it. Says whether
    /// there was one.
    pub fn cancel(&mut self, command_id: u64) -> (r: bool)
        requires
            old(self).wf(),
        ensures
            final(self).wf(),
            r == old(self).has(command_id),
            final(self)@ == removed(old(self)@, command_id),
            !final(self).has(command_id),
    {
        proof {
            lemma_removed(self@, command_id);
        }
        match self.find(command_id) {
            Some(i) => {
                self.entries.remove(i);
                true
            },
            None => false,
        }
    }

    /// Removes every entry whose deadline has passed at `now` and resolves
    /// each with a timeout, in the order in which they were registered.
    pub fn expire_due(&mut self, now: u64) -> (out: Vec<Resolution>)
        requires
            old(self).wf(),
        ensures
            final(self).wf(),
            final(self)@ == old(self)@.filter(live_at(now)),
            views(out@) == resolved_with(old(self)@.filter(due_at(now)), OutcomeView::Timeout),
            out@.len() == old(self)@.filter(due_at(now)).len(),
    {
        let mut kept: Vec<PendingRequest> = Vec::new();
        let mut out: Vec<Resolution> = Vec::new();
        let mut i: usize = 0;
        proof {
            reveal(Seq::filter);
            assert(self@.take(0).filter(live_at(now)) =~= Seq::<PendingRequest>::empty());
            assert(self@.take(0).filter(due_at(now)) =~= Seq::<PendingRequest>::empty());
            assert(views(out@) =~= resolved_with(Seq::<PendingRequest>::empty(), OutcomeView::Timeout));
        }
        while i < self.entries.len()
            invariant
                i <= self.entries.len(),
                self@ == old(self)@,
                kept@ == self@.take(i as int).filter(live_at(now)),
                views(out@) == resolved_with(self@.take(i as int).filter(due_at(now)), OutcomeView::Timeout),
            decreases self.entries.len() - i,
        {
            let e = self.entries[i];
            proof {
                let before = self@.take(i as int);
                assert(self@.take(i + 1) =~= before.push(e));
                before.lemma_filter_push(e, live_at(now));
                before.lemma_filter_push(e, due_at(now));
            }
            if e.deadline <= now {
                let ghost earlier = out@;
                out.push(Resolution { command_id: e.command_id, outcome: Outcome::Timeout });
                proof {
                    lemma_push_resolution(
                        earlier,
                        out@[earlier.len() as int],
                        self@.take(i as int).filter(due_at(now)),
                        e,
                        OutcomeView::Timeout,
                    );
                }
            } else {
                kept.push(e);
            }
            i += 1;
        }
        proof {
            assert(self@.take(self@.len() as int) =~= self@);
            lemma_filter_distinct(self@, live_at(now));
        }
        self.entries = kept;
        assert(views(out@).len() == out@.len());
        out
    }

    /// Removes every entry and resolves each with a lost connection, in the
    /// order in which they were registered.
    pub fn fail_all(&mut self) -> (out: Vec<Resolution>)
        ensures
            final(self)@ == Seq::<PendingRequest>::empty(),
            final(self).wf(),
            views(out@) == resolved_with(old(self)@, OutcomeView::ConnectionLost),
            out@.len() == old(self)@.len(),
    {
        let mut out: Vec<Resolution> = Vec::new();
        let mut i: usize = 0;
        assert(views(out@) =~= resolved_with(self@.take(0), OutcomeView::ConnectionLost));
        while i < self.entries.len()
            invariant
                i <= self.entries.len(),
                self@ == old(self)@,
                views(out@) == resolved_with(self@.take(i as int), OutcomeView::ConnectionLost),
            decreases self.entries.len() - i,
        {
            let ghost earlier = out@;
            out.push(Resolution { command_id: self.entries[i].command_id, outcome: Outcome::ConnectionLost });
            proof {
                assert(self@.take(i + 1) =~= self@.take(i as int).push(self@[i as int]));
                lemma_push_resolution(
                    earlier,
                    out@[earlier.len() as int],
                    self@.take(i as int),
                    self@[i as int],
                    OutcomeView::ConnectionLost,
                );
            }
            i += 1;
        }
        assert(self@.take(self@.len() as int) =~= self@);
        self.entries = Vec::new();
        assert(views(out@).len() == out@.len());
        out
    }
}

/// A request that gets no response before its deadline is resolved with a
/// timeout by the sweep, and is no longer pending afterwards.
pub proof fn lemma_timeout_resolves_and_removes(s: Seq<PendingRequest>, e: PendingRequest, now: u64)
    requires
        ids_distinct(s),
        s.contains(e),
        e.deadline <= now,
    ensures
        !has_id(s.filter(live_at(now)), e.command_id),
        resolved_with(s.filter(due_at(now)), OutcomeView::Timeout).contains(
            ResolutionView { command_id: e.command_id, outcome: OutcomeView::Timeout },
        ),
{
    let live = s.filter(live_at(now));
    let due = s.filter(due_at(now));
    let k = choose|k: int| 0 <= k < s.len() && s[k] == e;
    if has_id(live, e.command_id) {
        let i = index_of(live, e.command_id);
        s.lemma_filter_pred(live_at(now), i);
        assert(live.contains(live[i]));
        s.lemma_filter_contains_rev(live_at(now), live[i]);
        let j = choose|j: int| 0 <= j < s.len() && s[j] == live[i];
        assert(s[j].command_id == s[k].command_id);
        assert(j == k);
        assert(false);
    }
    s.lemma_filter_contains(due_at(now), k);
    let m = choose|m: int| 0 <= m < due.len() && due[m] == e;
    let r = resolved_with(due, OutcomeView::Timeout);
    assert(r[m] == ResolutionView { command_id: e.command_id, outcome: OutcomeView::Timeout });
}

/// The sweep parts the table in two: what it keeps and what it times out
/// are together what was there.
pub proof fn lemma_sweep_partitions(s: Seq<PendingRequest>, now: u64)
    ensures
        s.filter(live_at(now)).len() + s.filter(due_at(now)).len() == s.len(),
    decreases s.len(),
{
    reveal(Seq::filter);
    if s.len() > 0 {
        lemma_sweep_partitions(s.drop_last(), now);
    }
}

/// A response for an id that is not pending, be it timed out, cancelled or
/// never sent, resolves nothing and changes nothing, and the id is free to
/// be registered again.
pub proof fn lemma_late_response_is_dropped(s: Seq<PendingRequest>, id: u64, response: CommandView, now: u64)
    requires
        !has_id(s, id),
    ensures
        completion(s, id, response, now) is None,
        removed(s, id) == s,
{
}

/// A request whose deadline lies ahead survives the sweep.
pub proof fn lemma_sweep_keeps_live(s: Seq<PendingRequest>, e: PendingRequest, now: u64)
    requires
        s.contains(e),
        e.deadline > now,
    ensures
        s.filter(live_at(now)).contains(e),
        has_id(s.filter(live_at(now)), e.command_id),
{
    let k = choose|k: int| 0 <= k < s.len() && s[k] == e;
    s.lemma_filter_contains(live_at(now), k);
    let live = s.filter(live_at(now));
    let m = choose|m: int| 0 <= m < live.len() && live[m] == e;
    assert(live[m].command_id == e.command_id);
}

/// After a cancel, a response for that id resolves nothing and changes
/// nothing.
pub proof fn lemma_cancel_then_response_dropped(s: Seq<PendingRequest>, id: u64, response: CommandView, now: u64)
    requires
        ids_distinct(s),
    ensures
        completion(removed(s, id), id, response, now) is None,
        removed(removed(s, id), id) == removed(s, id),
{
    lemma_removed(s, id);
}

} // verus!
