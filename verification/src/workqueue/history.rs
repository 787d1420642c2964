//! What holds of work items over any sequence of events.

use super::{Request, Works};
use vstd::prelude::*;

verus! {

/// What happens to a table of work items.
pub enum WorkEvent {
    /// An attempt to queue an item.
    Queue(int, Request),
    /// The callback of an item starts.
    Begin(int),
    /// The callback of an item ends.
    End(int),
    /// An item is cancelled.
    Cancel(int),
    /// Time passes.
    Advance(u64),
    /// Items, queues or registrations are added, or registrations go.
    Other,
}

impl WorkEvent {
    /// Whether this takes a pending request of item `w` away.
    pub open spec fn consumes(self, w: int) -> bool {
        self == WorkEvent::Begin(w) || self == WorkEvent::Cancel(w)
    }
}

impl Works {
    /// Whether `event` turns this table into `post`.
    pub open spec fn turns_into(self, event: WorkEvent, post: Self) -> bool {
        match event {
            WorkEvent::Queue(w, request) => self.has(w) && post == self.queued(w, request),
            WorkEvent::Begin(w) => self.has(w) && self.can_begin(w) && post == self.begun(w),
            WorkEvent::End(w) => self.has(w) && post == self.ended(w),
            WorkEvent::Cancel(w) => self.has(w) && post == self.cancelled(w),
            WorkEvent::Advance(jiffies) => self.now + jiffies <= u64::MAX && post == self.later(
                jiffies,
            ),
            WorkEvent::Other => {
                &&& post.now == self.now
                &&& post.order == self.order
                &&& post.works.len() >= self.works.len()
                &&& forall|w: int| self.has(w) ==> #[trigger] post.works[w] == self.works[w]
            },
        }
    }
}

/// Whether each of `events` turns the table at its place, which is in order, into the
/// next one.
pub open spec fn work_history(tables: Seq<Works>, events: Seq<WorkEvent>) -> bool {
    &&& tables.len() == events.len() + 1
    &&& forall|t: int| 0 <= t < tables.len() ==> (#[trigger] tables[t]).wf()
    &&& forall|t: int|
        #![trigger events[t]]
        0 <= t < events.len() ==> tables[t].turns_into(events[t], tables[t + 1])
}

/// What was asked for when item `w` was queued stands until it is taken away, and so
/// does the time of that.
proof fn lemma_request_stands(
    tables: Seq<Works>,
    events: Seq<WorkEvent>,
    w: int,
    request: Request,
    s: int,
    u: int,
)
    requires
        work_history(tables, events),
        0 <= s < u < tables.len(),
        0 <= w < tables[s].works.len(),
        tables[s].can_queue(w),
        events[s] == WorkEvent::Queue(w, request),
        forall|t: int| s < t < u ==> !(#[trigger] events[t]).consumes(w),
    ensures
        0 <= w < tables[u].works.len(),
        tables[u].works[w].pending == Some(request),
        tables[u].works[w].since == tables[s].now,
        tables[s].now <= tables[u].now,
    decreases u - s,
{
    assert(tables[u - 1].turns_into(events[u - 1], tables[u]));
    if u > s + 1 {
        lemma_request_stands(tables, events, w, request, s, u - 1);
        assert(!events[u - 1].consumes(w));
    }
}

/// Of two items that are pending, the one that was queued first stays before the
/// other in the order, until one of them is taken away.
proof fn lemma_order_stands(
    tables: Seq<Works>,
    events: Seq<WorkEvent>,
    v: int,
    w: int,
    s: int,
    u: int,
)
    requires
        work_history(tables, events),
        0 <= s <= u < tables.len(),
        super::comes_before(tables[s].order, v, w),
        forall|t: int|
            s <= t < u ==> !(#[trigger] events[t]).consumes(v) && !events[t].consumes(w),
    ensures
        super::comes_before(tables[u].order, v, w),
    decreases u - s,
{
    if s < u {
        lemma_order_stands(tables, events, v, w, s, u - 1);
        let pre = tables[u - 1];
        assert(pre.turns_into(events[u - 1], tables[u]));
        assert(pre.wf() && !events[u - 1].consumes(v) && !events[u - 1].consumes(w));
        let (i, j) = choose|i: int, j: int|
            0 <= i < j < pre.order.len() && #[trigger] pre.order[i] == v && #[trigger] pre.order[j]
                == w;
        match events[u - 1] {
            WorkEvent::Queue(x, _) => {
                assert(tables[u].order[i] == v && tables[u].order[j] == w);
            },
            WorkEvent::Begin(x) => super::lemma_without(pre.order, x as usize),
            WorkEvent::Cancel(x) => super::lemma_without(pre.order, x as usize),
            _ => {},
        }
    }
}

/// The callback of an item that was queued with a delay does not start before the
/// delay has passed, whatever else happens meanwhile.
pub proof fn law_delay_passes_before_the_start(
    tables: Seq<Works>,
    events: Seq<WorkEvent>,
    w: int,
    request: Request,
    delay: u64,
    s: int,
    u: int,
)
    requires
        work_history(tables, events),
        0 <= s < u < events.len(),
        0 <= w < tables[s].works.len(),
        tables[s].can_queue(w),
        events[s] == WorkEvent::Queue(w, request),
        request.delay == Some(delay),
        forall|t: int| s < t < u ==> !(#[trigger] events[t]).consumes(w),
        events[u] == WorkEvent::Begin(w),
    ensures
        tables[s].now + delay <= tables[u].now,
{
    lemma_request_stands(tables, events, w, request, s, u);
    assert(tables[u].turns_into(events[u], tables[u + 1]));
}

/// Of two items that were queued on an ordered queue to be run at once, the one that
/// was queued first starts first, whatever else happens meanwhile: as long as it is
/// pending, the other does not start.
pub proof fn law_ordered_queue_is_first_in_first_out(
    tables: Seq<Works>,
    events: Seq<WorkEvent>,
    v: int,
    first: Request,
    r: int,
    w: int,
    second: Request,
    s: int,
    u: int,
)
    requires
        work_history(tables, events),
        0 <= r < s < u < events.len(),
        tables[r].has(v),
        tables[r].can_queue(v),
        events[r] == WorkEvent::Queue(v, first),
        tables[s].has(w),
        tables[s].can_queue(w),
        events[s] == WorkEvent::Queue(w, second),
        first.at_once(),
        second.at_once(),
        first.queue == second.queue,
        tables[u].queues[second.queue as int],
        forall|t: int| r < t < u ==> !(#[trigger] events[t]).consumes(v),
        forall|t: int| s < t < u ==> !(#[trigger] events[t]).consumes(w),
    ensures
        events[u] != WorkEvent::Begin(w),
{
    lemma_request_stands(tables, events, v, first, r, s);
    lemma_request_stands(tables, events, v, first, r, u);
    lemma_request_stands(tables, events, w, second, s, u);
    assert(tables[s].turns_into(events[s], tables[s + 1]));
    assert(tables[s].wf() && tables[u].wf());
    assert(tables[s].order.contains(v as usize));
    let i = tables[s].order.index_of(v as usize);
    let n = tables[s].order.len() as int;
    assert(tables[s + 1].order[i] == v && tables[s + 1].order[n] == w);
    lemma_order_stands(tables, events, v, w, s + 1, u);
    if events[u] == WorkEvent::Begin(w) {
        assert(tables[u].turns_into(events[u], tables[u + 1]));
        assert(tables[u].has(v) && tables[u].ahead(v, w));
    }
}

/// Of two items that are pending on an ordered queue, the one whose delay ends first
/// starts first, whatever else happens meanwhile: as long as it is pending, the other
/// does not start.
pub proof fn law_ordered_queue_runs_what_is_due_first(
    tables: Seq<Works>,
    events: Seq<WorkEvent>,
    v: int,
    first: Request,
    r: int,
    w: int,
    second: Request,
    s: int,
    u: int,
)
    requires
        work_history(tables, events),
        0 <= r < u < events.len(),
        0 <= s < u,
        tables[r].has(v),
        tables[r].can_queue(v),
        events[r] == WorkEvent::Queue(v, first),
        tables[s].has(w),
        tables[s].can_queue(w),
        events[s] == WorkEvent::Queue(w, second),
        tables[r].now + first.wait() < tables[s].now + second.wait(),
        first.queue == second.queue,
        tables[u].queues[second.queue as int],
        forall|t: int| r < t < u ==> !(#[trigger] events[t]).consumes(v),
        forall|t: int| s < t < u ==> !(#[trigger] events[t]).consumes(w),
    ensures
        events[u] != WorkEvent::Begin(w),
{
    lemma_request_stands(tables, events, v, first, r, u);
    lemma_request_stands(tables, events, w, second, s, u);
    if events[u] == WorkEvent::Begin(w) {
        assert(tables[u].turns_into(events[u], tables[u + 1]));
        assert(tables[u].has(v) && tables[u].ahead(v, w));
    }
}

} // verus!
