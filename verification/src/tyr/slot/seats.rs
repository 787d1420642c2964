//! What holds of all the seats of a slot manager together, over any sequence of
//! activations, idlings and evictions.

use super::{Seat, SlotEvent, SlotTable};
use vstd::prelude::*;
use vstd::set_lib::*;

verus! {

/// Whether the claims of `seats` come from `table`, and no two of them come from one
/// activation.
pub open spec fn houses<D>(table: SlotTable<D>, seats: Seq<Seat>) -> bool {
    &&& table.wf()
    &&& forall|k: int| 0 <= k < seats.len() ==> table.issued(#[trigger] seats[k])
    &&& forall|j: int, k: int|
        0 <= j < k < seats.len() && (#[trigger] seats[j]).info() is Some && (
        #[trigger] seats[k]).info() is Some ==> seats[j].info()->Some_0.seqno()
            != seats[k].info()->Some_0.seqno()
}

/// What is done for one of the seats.
pub struct SeatEvent<D> {
    /// Which of the seats.
    pub seat: int,
    /// What is done for it.
    pub event: SlotEvent<D>,
}

/// The slots and the seats at one time.
pub struct House<D> {
    /// The slots.
    pub table: SlotTable<D>,
    /// The seats.
    pub seats: Seq<Seat>,
}

impl<D> House<D> {
    /// `n` free slots of a new manager, and seats that have not been given any.
    pub open spec fn empty(self, n: int) -> bool {
        &&& self.table.wf()
        &&& self.table.count == n
        &&& self.table.next == 1
        &&& forall|i: int|
            0 <= i < self.table.slots.len() ==> #[trigger] self.table.slots[i] is Free
        &&& forall|k: int| 0 <= k < self.seats.len() ==> #[trigger] self.seats[k] is NoSeat
    }

    /// Whether `event` may turn this house into `post`. Sequence numbers have to be
    /// left for an activation.
    pub open spec fn turns_into(self, event: SeatEvent<D>, post: Self) -> bool {
        &&& 0 <= event.seat < self.seats.len()
        &&& event.event is Activate ==> self.table.next < u64::MAX
        &&& post.seats.len() == self.seats.len()
        &&& forall|k: int|
            0 <= k < self.seats.len() && k != event.seat ==> #[trigger] post.seats[k]
                == self.seats[k]
        &&& self.table.changes(
            self.seats[event.seat],
            event.event,
            post.table,
            post.seats[event.seat],
        )
    }
}

/// Whether each of `events` turns the house at its place into the next one, starting
/// with `n` free slots.
pub open spec fn history<D>(houses: Seq<House<D>>, events: Seq<SeatEvent<D>>, n: int) -> bool {
    &&& houses.len() == events.len() + 1
    &&& houses[0].empty(n)
    &&& forall|t: int|
        #![trigger events[t]]
        0 <= t < events.len() ==> houses[t].turns_into(events[t], houses[t + 1])
}

/// Whatever is done for one of the seats, no two claims come from one activation.
proof fn lemma_event_keeps_claims_apart<D>(pre: House<D>, event: SeatEvent<D>, post: House<D>)
    requires
        houses(pre.table, pre.seats),
        pre.table.count <= 256,
        pre.turns_into(event, post),
    ensures
        houses(post.table, post.seats),
        post.table.count == pre.table.count,
{
    let seat = pre.seats[event.seat];
    let post_seat = post.seats[event.seat];
    assert(pre.table.issued(seat));
    assert(post.table.wf() && post.table.count == pre.table.count && post.table.next
        >= pre.table.next && post.table.issued(post_seat));
    assert(post_seat.info() is Some ==> post_seat.info()->Some_0.seqno() == pre.table.next || (
    seat.info() is Some && post_seat.info()->Some_0.seqno() == seat.info()->Some_0.seqno()));
    assert forall|k: int| 0 <= k < post.seats.len() implies post.table.issued(
        #[trigger] post.seats[k],
    ) by {
        assert(pre.table.issued(pre.seats[k]));
    }
    assert forall|j: int, k: int|
        0 <= j < k < post.seats.len() && (#[trigger] post.seats[j]).info() is Some && (
        #[trigger] post.seats[k]).info() is Some implies post.seats[j].info()->Some_0.seqno()
        != post.seats[k].info()->Some_0.seqno() by {
        assert(pre.table.issued(pre.seats[j]) && pre.table.issued(pre.seats[k]));
        assert(pre.seats[j].info() is Some && pre.seats[k].info() is Some
            ==> pre.seats[j].info()->Some_0.seqno() != pre.seats[k].info()->Some_0.seqno());
    }
}

/// At every time of a history, no two claims come from one activation.
proof fn lemma_claims_stay_apart<D>(
    all: Seq<House<D>>,
    events: Seq<SeatEvent<D>>,
    n: int,
    t: int,
)
    requires
        history(all, events, n),
        n <= 256,
        0 <= t < all.len(),
    ensures
        houses(all[t].table, all[t].seats),
        all[t].table.count == n,
    decreases t,
{
    if t > 0 {
        lemma_claims_stay_apart(all, events, n, t - 1);
        assert(all[t - 1].turns_into(events[t - 1], all[t]));
        lemma_event_keeps_claims_apart(all[t - 1], events[t - 1], all[t]);
    }
}

/// Whether seat `k` of a house still has the slot that it was given.
pub open spec fn seated<D>(house: House<D>, k: int) -> bool {
    0 <= k < house.seats.len() && house.table.bound(house.seats[k])
}

/// The slot of seat `k` of a house, which has one.
pub open spec fn slot_of<D>(house: House<D>, k: int) -> int {
    house.seats[k].info()->Some_0.slot()
}

/// The seats of a house that have a slot.
pub open spec fn all_seated<D>(house: House<D>) -> Set<int> {
    set_int_range(0, house.seats.len() as int).filter(|k: int| seated(house, k))
}

/// After any sequence of activations, idlings and evictions, whatever the callbacks
/// came to, different seats have different slots, each of them one that the manager
/// has.
pub proof fn law_seats_never_share_a_slot<D>(
    all: Seq<House<D>>,
    events: Seq<SeatEvent<D>>,
    n: int,
    t: int,
    j: int,
    k: int,
)
    requires
        history(all, events, n),
        n <= 256,
        0 <= t < all.len(),
        seated(all[t], j),
        seated(all[t], k),
        j != k,
    ensures
        slot_of(all[t], j) != slot_of(all[t], k),
        0 <= slot_of(all[t], j) < n,
        0 <= slot_of(all[t], k) < n,
{
    lemma_claims_stay_apart(all, events, n, t);
    let seats = all[t].seats;
    assert(all[t].table.issued(seats[j]) && all[t].table.issued(seats[k]));
    if j < k {
        assert(seats[j].info()->Some_0.seqno() != seats[k].info()->Some_0.seqno());
    } else {
        assert(seats[k].info()->Some_0.seqno() != seats[j].info()->Some_0.seqno());
    }
}

/// After any sequence of activations, idlings and evictions, no more seats have a
/// slot than there are slots.
pub proof fn law_no_more_seats_than_slots<D>(
    all: Seq<House<D>>,
    events: Seq<SeatEvent<D>>,
    n: int,
    t: int,
)
    requires
        history(all, events, n),
        n <= 256,
        0 <= t < all.len(),
    ensures
        all_seated(all[t]).len() <= n,
{
    let house = all[t];
    let seated_ones = all_seated(house);
    let slots = seated_ones.map(|k: int| slot_of(house, k));
    lemma_claims_stay_apart(all, events, n, t);
    lemma_int_range(0, house.seats.len() as int);
    lemma_int_range(0, n);
    assert forall|j: int, k: int|
        seated_ones.contains(j) && seated_ones.contains(k) && #[trigger] slot_of(house, j)
            == #[trigger] slot_of(house, k) implies j == k by {
        if j != k {
            law_seats_never_share_a_slot(all, events, n, t, j, k);
        }
    }
    assert forall|s: int| #[trigger] slots.contains(s) implies set_int_range(0, n).contains(s) by {
        let k = choose|k: int| seated_ones.contains(k) && slot_of(house, k) == s;
        assert(house.table.issued(house.seats[k]));
    }
    lemma_map_size(seated_ones, slots, |k: int| slot_of(house, k));
    lemma_len_subset(slots, set_int_range(0, n));
}

/// Activating a seat, whatever it comes to, takes no slot away from a seat that is
/// active: only idle slots are taken away.
pub proof fn law_activation_spares_active_seats<D>(
    all: Seq<House<D>>,
    events: Seq<SeatEvent<D>>,
    n: int,
    t: int,
    other: int,
)
    requires
        history(all, events, n),
        n <= 256,
        0 <= t < events.len(),
        events[t].event is Activate,
        other != events[t].seat,
        seated(all[t], other),
        all[t].seats[other] is Active,
    ensures
        all[t + 1].seats[other] == all[t].seats[other],
        seated(all[t + 1], other),
        slot_of(all[t + 1], other) == slot_of(all[t], other),
{
    lemma_claims_stay_apart(all, events, n, t);
    let pre = all[t];
    let k = events[t].seat;
    assert(pre.turns_into(events[t], all[t + 1]));
    assert(pre.table.issued(pre.seats[other]) && pre.table.issued(pre.seats[k]));
    if pre.seats[k].info() is Some {
        if k < other {
            assert(pre.seats[k].info()->Some_0.seqno() != pre.seats[other].info()->Some_0.seqno());
        } else {
            assert(pre.seats[other].info()->Some_0.seqno() != pre.seats[k].info()->Some_0.seqno());
        }
    }
}

} // verus!
