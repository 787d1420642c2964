//! Which slot a seat is offered, and what giving, idling and freeing a slot changes,
//! said of the slots one by one.

use super::{
    Candidate, NoHardware, Seat, SeatInfo, Slot, SlotInfo, SlotManager, SlotOperations, SlotTable,
};
use crate::error::Error;
use vstd::prelude::*;

verus! {

impl<D> SlotTable<D> {
    /// A seat still has its slot exactly if the slot is in the state that the seat says,
    /// and was last given by the activation that the seat came from.
    pub proof fn law_seat_has_its_slot(self, info: SeatInfo)
        ensures
            !self.bound(Seat::NoSeat),
            self.bound(Seat::Active(info)) <==> (self.slots[info.slot()] matches Slot::Active(slot)
                && slot.seqno == info.seqno()),
            self.bound(Seat::Idle(info)) <==> (self.slots[info.slot()] matches Slot::Idle(slot)
                && slot.seqno == info.seqno()),
    {
    }

    /// Checking a seat leaves it as it is while it has its slot, and takes its claim away
    /// otherwise; checking it again changes nothing.
    pub proof fn law_checking_is_final(self, seat: Seat)
        ensures
            self.bound(seat) ==> self.checked(seat) == seat,
            !self.bound(seat) ==> self.checked(seat) is NoSeat,
            self.checked(self.checked(seat)) == self.checked(seat),
    {
    }

    /// A seat that still has its slot is offered that. Any other is offered the lowest of
    /// the free slots if there is one; if not, the idle slot whose activation is the
    /// longest ago; and nothing if all slots are active.
    pub proof fn law_offer_goes_by_the_slots(self, seat: Seat, offer: Candidate, j: int)
        requires
            self.wf(),
            self.offers(seat, offer),
            0 <= j < self.count,
        ensures
            self.bound(seat) <==> offer is Own,
            offer matches Candidate::Own(i) ==> seat.info() matches Some(info) && info.slot() == i,
            offer matches Candidate::Free(i) ==> {
                &&& i < self.count
                &&& self.slots[i as int] is Free
                &&& self.slots[j] is Free ==> i <= j
            },
            offer matches Candidate::Idle(i) ==> {
                &&& i < self.count
                &&& !(self.slots[j] is Free)
                &&& self.slots[i as int] matches Slot::Idle(oldest) && (
                self.slots[j] matches Slot::Idle(slot) ==> oldest.seqno <= slot.seqno)
            },
            offer is Full ==> self.slots[j] is Active,
            !self.bound(seat) && self.slots[j] is Free ==> offer is Free,
            !self.bound(seat) && self.slots[j] is Idle ==> offer is Free || offer is Idle,
    {
    }

    /// Giving a slot records the data for it under the next sequence number, and changes
    /// no other slot.
    pub proof fn law_giving_records_the_slot(self, i: int, slot_data: D, other: int)
        requires
            0 <= i < self.slots.len(),
            0 <= other < self.slots.len(),
            0 <= self.next < u64::MAX,
        ensures
            self.record(i, slot_data).slots[i] == Slot::Active(
                SlotInfo { slot_data, seqno: self.next as u64 },
            ),
            other != i ==> self.record(i, slot_data).slots[other] == self.slots[other],
            self.record(i, slot_data).slots.len() == self.slots.len(),
            self.record(i, slot_data).count == self.count,
            self.record(i, slot_data).next == self.next + 1,
    {
    }

    /// A slot that goes idle keeps its data and its sequence number, and no other slot
    /// changes.
    pub proof fn law_idling_keeps_the_record(self, i: int, other: int)
        requires
            0 <= i < self.slots.len(),
            0 <= other < self.slots.len(),
            self.slots[i] is Active,
        ensures
            self.idled(i).slots[i] matches Slot::Idle(info) && self.slots[i] == Slot::Active(info),
            other != i ==> self.idled(i).slots[other] == self.slots[other],
            self.idled(i).slots.len() == self.slots.len(),
            self.idled(i).count == self.count,
            self.idled(i).next == self.next,
    {
    }

    /// A slot that is freed keeps nothing, and no other slot changes.
    pub proof fn law_freeing_forgets_one_slot(self, i: int, other: int)
        requires
            0 <= i < self.slots.len(),
            0 <= other < self.slots.len(),
        ensures
            self.freed(i).slots[i] is Free,
            other != i ==> self.freed(i).slots[other] == self.slots[other],
            self.freed(i).slots.len() == self.slots.len(),
            self.freed(i).count == self.count,
            self.freed(i).next == self.next,
    {
    }

    /// Giving a slot, letting it go idle and freeing it leaves the slots as they were
    /// with that slot free; only the sequence number has moved on.
    pub proof fn law_slot_goes_full_circle(self, i: int, slot_data: D)
        requires
            0 <= i < self.slots.len(),
            self.slots[i] is Free,
        ensures
            self.record(i, slot_data).idled(i).freed(i).slots == self.slots,
            self.record(i, slot_data).freed(i).slots == self.slots,
    {
        assert(self.record(i, slot_data).idled(i).freed(i).slots =~= self.slots);
        assert(self.record(i, slot_data).freed(i).slots =~= self.slots);
    }

    /// A seat can be looked up exactly if it has no slot or one of these.
    pub proof fn law_lookup_needs_a_slot(self, seat: Seat)
        ensures
            seat is NoSeat ==> self.accepts(seat),
            seat matches Seat::Active(info) ==> (self.accepts(seat) <==> 0 <= info.slot()
                < self.slots.len()),
            seat matches Seat::Idle(info) ==> (self.accepts(seat) <==> 0 <= info.slot()
                < self.slots.len()),
    {
    }
}

impl<T: SlotOperations, const MAX_SLOTS: usize> SlotManager<T, MAX_SLOTS> {
    /// Where a slot is free, the lowest one is activated by one callback, and nothing is
    /// evicted. The answer is that of the callback: the seat is active in that slot where
    /// it succeeded, and nothing has changed where it failed.
    pub proof fn law_free_slot_is_activated(
        pre: Self,
        slot_data: T::SlotData,
        post: Self,
        seat: Seat,
        res: Result<(), Error>,
        i: int,
    )
        requires
            pre.wf(),
            pre@.next < u64::MAX,
            Self::allocated(pre, slot_data, post, seat, res),
            0 <= i < pre@.count,
            pre@.slots[i] is Free,
            forall|j: int| 0 <= j < i ==> !(#[trigger] pre@.slots[j] is Free),
        ensures
            T::activated(pre.manager(), i, slot_data, post.manager(), res),
            res is Ok ==> {
                &&& post@.slots == pre@.slots.update(
                    i,
                    Slot::Active(SlotInfo { slot_data, seqno: pre@.next as u64 }),
                )
                &&& post@.count == pre@.count
                &&& post@.next == pre@.next + 1
                &&& seat matches Seat::Active(info) && info.slot() == i % 256 && info.seqno()
                    == pre@.next
            },
            res is Err ==> post@ == pre@ && seat is NoSeat,
    {
        assert(pre@.first_free(i));
    }

    /// Where no slot is free, the idle one whose activation is the longest ago is evicted
    /// with the data that it holds, and is activated for the seat after that succeeded.
    /// A failed eviction changes nothing; a failed activation leaves the slot free.
    pub proof fn law_oldest_idle_slot_is_recycled(
        pre: Self,
        slot_data: T::SlotData,
        post: Self,
        seat: Seat,
        res: Result<(), Error>,
        i: int,
        held: SlotInfo<T::SlotData>,
    )
        requires
            pre.wf(),
            pre@.next < u64::MAX,
            Self::allocated(pre, slot_data, post, seat, res),
            0 <= i < pre@.count,
            pre@.slots[i] == Slot::Idle(held),
            forall|j: int|
                0 <= j < pre@.count ==> !(#[trigger] pre@.slots[j] is Free) && (
                pre@.slots[j] matches Slot::Idle(slot) ==> held.seqno <= slot.seqno),
        ensures
            ({
                ||| {
                    &&& res is Err
                    &&& T::evicted(pre.manager(), i, held.slot_data, post.manager(), res)
                    &&& post@ == pre@
                }
                ||| exists|mid: T| #[trigger]
                    T::evicted(pre.manager(), i, held.slot_data, mid, Ok(())) && T::activated(
                        mid,
                        i,
                        slot_data,
                        post.manager(),
                        res,
                    ) && (res is Err ==> post@.slots == pre@.slots.update(i, Slot::Free))
            }),
            res is Ok ==> {
                &&& post@.slots == pre@.slots.update(
                    i,
                    Slot::Active(SlotInfo { slot_data, seqno: pre@.next as u64 }),
                )
                &&& post@.count == pre@.count
                &&& post@.next == pre@.next + 1
                &&& seat matches Seat::Active(info) && info.slot() == i % 256 && info.seqno()
                    == pre@.next
            },
            res is Err ==> post@.next == pre@.next && seat is NoSeat,
    {
        assert(pre@.oldest_idle(i));
    }

    /// Where all slots are active, the answer is `EBUSY`, no callback is made and nothing
    /// changes.
    pub proof fn law_full_house_is_busy(
        pre: Self,
        slot_data: T::SlotData,
        post: Self,
        seat: Seat,
        res: Result<(), Error>,
    )
        requires
            Self::allocated(pre, slot_data, post, seat, res),
            forall|j: int| 0 <= j < pre@.count ==> #[trigger] pre@.slots[j] is Active,
        ensures
            res matches Err(e) && e.code() == -16,
            post.manager() == pre.manager(),
            post@ == pre@,
            seat is NoSeat,
    {
    }
}

/// What is known of a seat's slot, and of a slot in use, is the same whether it is active
/// or idle.
pub proof fn law_idle_ones_are_still_known<D>(seat: SeatInfo, slot: SlotInfo<D>)
    ensures
        Seat::Active(seat).info() == Some(seat),
        Seat::Idle(seat).info() == Some(seat),
        Seat::NoSeat.info() is None,
        Slot::Active(slot).info() == Some(slot),
        Slot::Idle(slot).info() == Some(slot),
        Slot::<D>::Free.info() is None,
{
}

/// Without hardware, activating and evicting succeed and change nothing.
pub proof fn law_no_hardware_never_fails(
    pre: NoHardware,
    slot_idx: int,
    slot_data: u64,
    post: NoHardware,
    res: Result<(), Error>,
)
    requires
        NoHardware::activated(pre, slot_idx, slot_data, post, res) || NoHardware::evicted(
            pre,
            slot_idx,
            slot_data,
            post,
            res,
        ),
    ensures
        res is Ok,
        post == pre,
{
}

impl<T: SlotOperations, const MAX_SLOTS: usize> SlotManager<T, MAX_SLOTS> {
    /// A new manager has so many free slots, and is refused with `EINVAL` exactly if there
    /// is none or more than it can have. A seat is offered what the slots have for it, and
    /// its lookup and the next sequence number are told as they are.
    pub proof fn law_calls_that_look()
        ensures
            forall|manager: T, slot_count: usize, res: Result<Self, Error>| #[trigger]
                call_ensures(Self::new, (manager, slot_count), res) ==> {
                    &&& res is Ok <==> 1 <= slot_count <= MAX_SLOTS
                    &&& res matches Err(e) ==> e.code() == -22
                    &&& res matches Ok(m) ==> m.manager() == manager && m@.count == slot_count
                        && m@.next == 1 && forall|i: int|
                        0 <= i < MAX_SLOTS ==> #[trigger] m@.slots[i] is Free
                },
            forall|m: Self, seat: Seat, res: Candidate| #[trigger]
                call_ensures(Self::candidate, (&m, &seat), res) ==> m@.offers(seat, res),
            forall|m: Self, seat: Seat, res: bool| #[trigger]
                call_ensures(Self::accepts_seat, (&m, &seat), res) ==> (res <==> (
                seat.info() matches Some(info) ==> 0 <= info.slot() < m@.slots.len())),
            forall|m: Self, res: u64| #[trigger]
                call_ensures(Self::next_seqno, (&m,), res) ==> res == m@.next,
            forall|seat: Seat, res: Option<u8>| #[trigger]
                call_ensures(Seat::slot, (&seat,), res) ==> match seat {
                    Seat::Active(info) => res matches Some(slot) && slot == info.slot(),
                    _ => res is None,
                },
            forall|res: Seat| #[trigger] call_ensures(Seat::default, (), res) ==> res is NoSeat,
    {
    }

    /// A seat that still has its slot is activated in it without a callback, under the next
    /// sequence number and with the new data; any other gets a slot as allocation has it.
    pub proof fn law_call_of_activate()
        ensures
            forall|m: &mut Self, seat: &mut Seat, data: T::SlotData, res: Result<(), Error>|
                #[trigger] call_ensures(Self::activate, (m, seat, data), res) ==> {
                    &&& m@.bound(*seat) ==> {
                        &&& res is Ok
                        &&& final(m).manager() == m.manager()
                        &&& seat.info() matches Some(info) && final(m)@ == m@.record(
                            info.slot(),
                            data,
                        ) && (*final(seat) matches Seat::Active(now) && now.slot() == info.slot()
                            && now.seqno() == m@.next)
                    }
                    &&& !m@.bound(*seat) ==> Self::allocated(
                        *m,
                        data,
                        *final(m),
                        *final(seat),
                        res,
                    )
                },
    {
    }

    /// A seat that is active in its slot goes idle with it, without a callback; any other is
    /// left alone, but for a claim that it has lost.
    pub proof fn law_call_of_idle()
        ensures
            forall|m: &mut Self, seat: &mut Seat, res: Result<(), Error>| #[trigger]
                call_ensures(Self::idle, (m, seat), res) ==> {
                    &&& res is Ok
                    &&& final(m).manager() == m.manager()
                    &&& m@.bound(*seat) ==> match *seat {
                        Seat::Active(info) => *final(seat) == Seat::Idle(info) && final(m)@
                            == m@.idled(info.slot()),
                        _ => *final(seat) == *seat && final(m)@ == m@,
                    }
                    &&& !m@.bound(*seat) ==> *final(seat) is NoSeat && final(m)@ == m@
                },
    {
    }

    /// A seat that still has its slot is evicted from it by one callback with the data of the
    /// slot: on success the slot is free and the seat has none, on failure nothing has
    /// changed. Any other seat has no slot, and no callback is made.
    pub proof fn law_call_of_evict()
        ensures
            forall|m: &mut Self, seat: &mut Seat, res: Result<(), Error>| #[trigger]
                call_ensures(Self::evict, (m, seat), res) ==> {
                    &&& m@.bound(*seat) ==> (seat.info() matches Some(info) && {
                        &&& T::evicted(
                            m.manager(),
                            info.slot(),
                            m@.slots[info.slot()].info()->Some_0.slot_data,
                            final(m).manager(),
                            res,
                        )
                        &&& res is Ok ==> final(m)@ == m@.freed(info.slot()) && *final(seat)
                            is NoSeat
                        &&& res is Err ==> final(m)@ == m@ && *final(seat) == *seat
                    })
                    &&& !m@.bound(*seat) ==> res is Ok && final(m).manager() == m.manager()
                        && final(m)@ == m@ && *final(seat) is NoSeat
                },
    {
    }
}

} // verus!
