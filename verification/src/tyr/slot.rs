//! Slot management abstraction for limited hardware resources.
//!
//! A [`SlotManager`] assigns limited hardware slots to logical "seats". A seat
//! represents an entity (such as a vm address space) that needs access to a
//! hardware slot.
//!
//! The manager tracks slot allocation using sequence numbers to detect when a
//! seat's binding has been invalidated. When a seat requests activation, the
//! manager reuses the seat's existing slot if it is still valid, takes a free
//! slot if there is one, or evicts the slot that has been idle the longest.
//!
//! Hardware-specific behavior is customized by implementing
//! [`SlotOperations`], whose methods are called when slots are activated or
//! evicted.

pub mod laws;
pub mod seats;

use crate::error::{Error, EBUSY, EINVAL};
use vstd::prelude::*;

verus! {

/// The slot that a seat was last given.
pub struct SeatInfo {
    /// Slot used by this seat.
    slot: u8,
    /// Sequence number encoding the last time this seat was active.
    /// It also tells whether a slot is still bound to a seat.
    seqno: u64,
}

impl SeatInfo {
    /// The slot used by this seat.
    pub closed spec fn slot(self) -> int {
        self.slot as int
    }

    /// The sequence number of the activation that gave the slot.
    pub closed spec fn seqno(self) -> int {
        self.seqno as int
    }

    fn copy(&self) -> (res: Self)
        ensures
            res == *self,
    {
        SeatInfo { slot: self.slot, seqno: self.seqno }
    }
}

/// A claim on a hardware slot. Only a [`SlotManager`] changes it.
pub enum Seat {
    /// No slot was given, or the slot was taken back.
    NoSeat,
    /// The slot is in use by this seat.
    Active(SeatInfo),
    /// The slot is kept for this seat until another seat needs it.
    Idle(SeatInfo),
}

impl Seat {
    /// Whether this seat is active in slot `slot` since activation `seqno`.
    pub open spec fn active_in(self, slot: int, seqno: int) -> bool {
        self matches Seat::Active(info) && info.slot() == slot && info.seqno() == seqno
    }

    /// The slot that an active or idle seat was given.
    pub open spec fn info(self) -> Option<SeatInfo> {
        match self {
            Seat::NoSeat => None,
            Seat::Active(info) => Some(info),
            Seat::Idle(info) => Some(info),
        }
    }

    /// The slot in use by this seat, if it is active.
    pub fn slot(&self) -> (res: Option<u8>)
        ensures
            res is Some <==> *self is Active,
            res matches Some(slot) ==> self->Active_0.slot() == slot,
    {
        match self {
            Seat::Active(info) => Some(info.slot),
            _ => None,
        }
    }

    fn copy(&self) -> (res: Self)
        ensures
            res == *self,
    {
        match self {
            Seat::NoSeat => Seat::NoSeat,
            Seat::Active(info) => Seat::Active(info.copy()),
            Seat::Idle(info) => Seat::Idle(info.copy()),
        }
    }
}

impl Default for Seat {
    fn default() -> (res: Self)
        ensures
            res is NoSeat,
    {
        Seat::NoSeat
    }
}

/// Hardware-specific actions on slots.
///
/// An implementation says with [`SlotOperations::activated`] and
/// [`SlotOperations::evicted`] what its two methods do to it.
pub trait SlotOperations: Sized {
    /// What is attached to a slot in use.
    type SlotData;

    /// Whether activating slot `slot_idx` for `slot_data` may turn `pre` into
    /// `post` and come to `res`. Unless it says otherwise, it may do anything.
    open spec fn activated(
        pre: Self,
        slot_idx: int,
        slot_data: Self::SlotData,
        post: Self,
        res: Result<(), Error>,
    ) -> bool {
        true
    }

    /// Whether evicting `slot_data` from slot `slot_idx` may turn `pre` into
    /// `post` and come to `res`. Unless it says otherwise, it may do anything.
    open spec fn evicted(
        pre: Self,
        slot_idx: int,
        slot_data: Self::SlotData,
        post: Self,
        res: Result<(), Error>,
    ) -> bool {
        true
    }

    /// Called when a slot is being activated for a seat.
    ///
    /// This callback allows hardware-specific actions to be performed when a slot
    /// becomes active, such as updating hardware registers or invalidating caches.
    fn activate(&mut self, slot_idx: usize, slot_data: &Self::SlotData) -> (res: Result<(), Error>)
        ensures
            Self::activated(*old(self), slot_idx as int, *slot_data, *final(self), res),
    ;

    /// Called when a slot is being evicted and freed.
    ///
    /// This callback allows hardware-specific cleanup when a slot is being
    /// completely freed, either explicitly or when an idle slot is being
    /// reused for a different seat. Any hardware state should be invalidated.
    fn evict(&mut self, slot_idx: usize, slot_data: &Self::SlotData) -> (res: Result<(), Error>)
        ensures
            Self::evicted(*old(self), slot_idx as int, *slot_data, *final(self), res),
    ;
}

/// Slot operations that have no hardware to act upon: both succeed and change
/// nothing.
pub struct NoHardware;

impl SlotOperations for NoHardware {
    type SlotData = u64;

    open spec fn activated(
        pre: Self,
        slot_idx: int,
        slot_data: u64,
        post: Self,
        res: Result<(), Error>,
    ) -> bool {
        post == pre && res is Ok
    }

    open spec fn evicted(
        pre: Self,
        slot_idx: int,
        slot_data: u64,
        post: Self,
        res: Result<(), Error>,
    ) -> bool {
        post == pre && res is Ok
    }

    fn activate(&mut self, slot_idx: usize, slot_data: &u64) -> (res: Result<(), Error>) {
        Ok(())
    }

    fn evict(&mut self, slot_idx: usize, slot_data: &u64) -> (res: Result<(), Error>) {
        Ok(())
    }
}

/// What is recorded of a slot in use.
pub struct SlotInfo<D> {
    /// Type specific data attached to a slot.
    pub slot_data: D,
    /// Sequence number from when this slot was last activated.
    pub seqno: u64,
}

/// The state of one hardware slot.
pub enum Slot<D> {
    /// No seat uses the slot.
    Free,
    /// A seat uses the slot.
    Active(SlotInfo<D>),
    /// The slot still holds a seat's state, and may be reused.
    Idle(SlotInfo<D>),
}

impl<D> Slot<D> {
    /// What is recorded of the slot, unless it is free.
    pub open spec fn info(self) -> Option<SlotInfo<D>> {
        match self {
            Slot::Free => None,
            Slot::Active(info) => Some(info),
            Slot::Idle(info) => Some(info),
        }
    }
}

/// The slot that a seat would be given if it were activated.
#[derive(Clone, Copy, Debug, PartialEq, Eq, Structural)]
pub enum Candidate {
    /// The slot that it was given before, which is still its own.
    Own(usize),
    /// The lowest free slot.
    Free(usize),
    /// The slot that has been idle the longest, to be evicted first.
    Idle(usize),
    /// None: all slots are active.
    Full,
}

/// What is done for a seat.
pub enum SlotEvent<D> {
    /// It is activated with the given data.
    Activate(D),
    /// It goes idle.
    Idle,
    /// It is evicted.
    Evict,
}

/// What a [`SlotManager`] knows of its slots.
#[verifier::ext_equal]
pub struct SlotTable<D> {
    /// Every slot, the ones beyond `count` included.
    pub slots: Seq<Slot<D>>,
    /// Number of slots actually available.
    pub count: int,
    /// The sequence number that the next activation gets.
    pub next: int,
}

impl<D> SlotTable<D> {
    /// Slots beyond `count` stay free, and every slot in use carries a
    /// sequence number of its own that was given out already.
    pub open spec fn wf(self) -> bool {
        &&& 1 <= self.count <= self.slots.len()
        &&& 1 <= self.next
        &&& forall|i: int|
            0 <= i < self.slots.len() && !(#[trigger] self.slots[i] is Free) ==> i < self.count
                && self.seqno(i) < self.next
        &&& forall|i: int, j: int|
            0 <= i < j < self.slots.len() && !(#[trigger] self.slots[i] is Free) && !(
            #[trigger] self.slots[j] is Free) ==> self.seqno(i) != self.seqno(j)
    }

    /// The sequence number recorded for slot `i`, which is in use.
    pub open spec fn seqno(self, i: int) -> int {
        self.slots[i].info()->Some_0.seqno as int
    }

    /// Whether the slot that `seat` was given, if any, is one of these.
    pub open spec fn accepts(self, seat: Seat) -> bool {
        seat.info() matches Some(info) ==> 0 <= info.slot() < self.slots.len()
    }

    /// Whether `seat` can have come from these slots.
    pub open spec fn issued(self, seat: Seat) -> bool {
        seat.info() matches Some(info) ==> 0 <= info.slot() < self.count && info.seqno()
            < self.next
    }

    /// Whether the slot that `seat` was given is still its own.
    pub open spec fn bound(self, seat: Seat) -> bool {
        match seat {
            Seat::NoSeat => false,
            Seat::Active(info) => self.slots[info.slot()] is Active && self.seqno(info.slot())
                == info.seqno(),
            Seat::Idle(info) => self.slots[info.slot()] is Idle && self.seqno(info.slot())
                == info.seqno(),
        }
    }

    /// `seat`, or no seat if its slot is no longer its own.
    pub open spec fn checked(self, seat: Seat) -> Seat {
        if self.bound(seat) {
            seat
        } else {
            Seat::NoSeat
        }
    }

    /// Whether `i` is the lowest free slot.
    pub open spec fn first_free(self, i: int) -> bool {
        &&& 0 <= i < self.count
        &&& self.slots[i] is Free
        &&& forall|j: int| 0 <= j < i ==> !(#[trigger] self.slots[j] is Free)
    }

    /// Whether no slot is free and `i` is the idle slot that was activated
    /// the longest ago.
    pub open spec fn oldest_idle(self, i: int) -> bool {
        &&& 0 <= i < self.count
        &&& self.slots[i] is Idle
        &&& forall|j: int| 0 <= j < self.count ==> !(#[trigger] self.slots[j] is Free)
        &&& forall|j: int|
            0 <= j < self.count && #[trigger] self.slots[j] is Idle ==> self.seqno(i)
                <= self.seqno(j)
    }

    /// Whether every slot is in active use.
    pub open spec fn full(self) -> bool {
        forall|j: int| 0 <= j < self.count ==> #[trigger] self.slots[j] is Active
    }

    /// Whether `candidate` is what `seat` would be given if it were activated.
    pub open spec fn offers(self, seat: Seat, candidate: Candidate) -> bool {
        match candidate {
            Candidate::Own(i) => self.bound(seat) && seat.info()->Some_0.slot() == i,
            Candidate::Free(i) => !self.bound(seat) && self.first_free(i as int),
            Candidate::Idle(i) => !self.bound(seat) && self.oldest_idle(i as int),
            Candidate::Full => !self.bound(seat) && self.full(),
        }
    }

    /// Whether `event` for `seat` may turn these slots into `post` and the seat into
    /// `post_seat`, whatever the callbacks come to.
    pub open spec fn changes(
        self,
        seat: Seat,
        event: SlotEvent<D>,
        post: Self,
        post_seat: Seat,
    ) -> bool {
        match event {
            SlotEvent::Activate(slot_data) => exists|offer: Candidate| #[trigger]
                self.offers(seat, offer) && match offer {
                    Candidate::Own(i) => self.gives(i as int, slot_data, post, post_seat),
                    Candidate::Free(i) => self.gives(i as int, slot_data, post, post_seat) || (post
                        == self && post_seat is NoSeat),
                    Candidate::Idle(i) => self.gives(i as int, slot_data, post, post_seat) || ((post
                        == self || post == self.freed(i as int)) && post_seat is NoSeat),
                    Candidate::Full => post == self && post_seat is NoSeat,
                },
            SlotEvent::Idle => match self.checked(seat) {
                Seat::Active(info) => post == self.idled(info.slot()) && post_seat == Seat::Idle(
                    info,
                ),
                other => post == self && post_seat == other,
            },
            SlotEvent::Evict => match self.checked(seat).info() {
                Some(info) => (post == self.freed(info.slot()) && post_seat is NoSeat) || (post
                    == self && post_seat == seat),
                None => post == self && post_seat is NoSeat,
            },
        }
    }

    /// Whether `post` has slot `i` recorded for `slot_data`, and `post_seat` is
    /// active in it. A seat records its slot in eight bits.
    pub open spec fn gives(self, i: int, slot_data: D, post: Self, post_seat: Seat) -> bool {
        post == self.record(i, slot_data) && post_seat.active_in(i % 256, self.next)
    }

    /// The slots after an activation of slot `i` for `slot_data`.
    pub open spec fn record(self, i: int, slot_data: D) -> Self {
        SlotTable {
            slots: self.slots.update(
                i,
                Slot::Active(SlotInfo { slot_data, seqno: self.next as u64 }),
            ),
            count: self.count,
            next: self.next + 1,
        }
    }

    /// The slots after active slot `i` went idle.
    pub open spec fn idled(self, i: int) -> Self {
        SlotTable { slots: self.slots.update(i, Slot::Idle(self.slots[i]->Active_0)), ..self }
    }

    /// The slots after slot `i` was freed.
    pub open spec fn freed(self, i: int) -> Self {
        SlotTable { slots: self.slots.update(i, Slot::Free), ..self }
    }
}

/// Assigns hardware slots to seats.
pub struct SlotManager<T: SlotOperations, const MAX_SLOTS: usize> {
    /// Manager specific data.
    manager: T,
    /// Number of slots actually available.
    slot_count: usize,
    /// Slots.
    slots: Vec<Slot<T::SlotData>>,
    /// Sequence number incremented each time a seat is successfully activated.
    use_seqno: u64,
}

impl<T: SlotOperations, const MAX_SLOTS: usize> View for SlotManager<T, MAX_SLOTS> {
    type V = SlotTable<T::SlotData>;

    closed spec fn view(&self) -> SlotTable<T::SlotData> {
        SlotTable {
            slots: self.slots@,
            count: self.slot_count as int,
            next: self.use_seqno as int,
        }
    }
}

impl<T: SlotOperations, const MAX_SLOTS: usize> SlotManager<T, MAX_SLOTS> {
    /// The hardware-specific part.
    pub closed spec fn manager(self) -> T {
        self.manager
    }

    /// Whether the records of the slots agree with one another.
    pub open spec fn wf(self) -> bool {
        self@.wf() && self@.slots.len() == MAX_SLOTS
    }

    /// What an attempt to give the seat free slot `i` leaves behind: the slot
    /// recorded for the seat where it succeeded, and no change otherwise.
    pub open spec fn settled(
        pre: Self,
        i: int,
        slot_data: T::SlotData,
        post: Self,
        seat: Seat,
        res: Result<(), Error>,
    ) -> bool {
        if res is Ok {
            post@ == pre@.record(i, slot_data) && seat.active_in(i % 256, pre@.next)
        } else {
            post@ == pre@ && seat is NoSeat
        }
    }

    /// What allocating a slot for a seat without one comes to.
    ///
    /// The lowest free slot is activated. Where none is free, the oldest idle
    /// slot is evicted and then activated. Where every slot is active, the
    /// answer is `EBUSY`. The first failing callback ends the attempt with
    /// its error.
    pub open spec fn allocated(
        pre: Self,
        slot_data: T::SlotData,
        post: Self,
        seat: Seat,
        res: Result<(), Error>,
    ) -> bool {
        &&& forall|i: int| #[trigger]
            pre@.first_free(i) ==> T::activated(pre.manager(), i, slot_data, post.manager(), res)
                && Self::settled(pre, i, slot_data, post, seat, res)
        &&& forall|i: int| #[trigger]
            pre@.oldest_idle(i) ==> Self::recycled(pre, i, slot_data, post, seat, res)
        &&& pre@.full() ==> {
            &&& res matches Err(e) && e.code() == EBUSY
            &&& post.manager() == pre.manager()
            &&& post@ == pre@
            &&& seat is NoSeat
        }
    }

    /// What evicting idle slot `i` and activating it for `slot_data` comes to.
    ///
    /// Where the eviction fails, nothing has changed. Where the activation fails
    /// after it, the slot is free.
    pub open spec fn recycled(
        pre: Self,
        i: int,
        slot_data: T::SlotData,
        post: Self,
        seat: Seat,
        res: Result<(), Error>,
    ) -> bool {
        let old_data = pre@.slots[i].info()->Some_0.slot_data;
        ||| {
            &&& res is Err
            &&& T::evicted(pre.manager(), i, old_data, post.manager(), res)
            &&& post@ == pre@
            &&& seat is NoSeat
        }
        ||| exists|mid: T|
            {
                &&& #[trigger] T::evicted(pre.manager(), i, old_data, mid, Ok(()))
                &&& T::activated(mid, i, slot_data, post.manager(), res)
                &&& res is Ok ==> {
                    &&& post@ == pre@.record(i, slot_data)
                    &&& seat.active_in(i % 256, pre@.next)
                }
                &&& res is Err ==> post@ == pre@.freed(i) && seat is NoSeat
            }
    }

    /// Creates a manager of `slot_count` free slots.
    ///
    /// Fails with `EINVAL` where there is no slot, or more than `MAX_SLOTS`.
    pub fn new(manager: T, slot_count: usize) -> (res: Result<Self, Error>)
        ensures
            res is Ok <==> 1 <= slot_count <= MAX_SLOTS,
            res matches Err(e) ==> e.code() == EINVAL,
            res matches Ok(m) ==> {
                &&& m.wf()
                &&& m.manager() == manager
                &&& m@.count == slot_count
                &&& m@.next == 1
                &&& forall|i: int| 0 <= i < MAX_SLOTS ==> #[trigger] m@.slots[i] is Free
            },
    {
        if slot_count == 0 {
            return Err(Error::from_errno(EINVAL));
        }
        if slot_count > MAX_SLOTS {
            return Err(Error::from_errno(EINVAL));
        }
        let mut slots: Vec<Slot<T::SlotData>> = Vec::new();
        while slots.len() < MAX_SLOTS
            invariant
                slots.len() <= MAX_SLOTS,
                forall|i: int| 0 <= i < slots.len() ==> #[trigger] slots@[i] is Free,
            decreases MAX_SLOTS - slots.len(),
        {
            slots.push(Slot::Free);
        }
        Ok(SlotManager { manager, slot_count, slots, use_seqno: 1 })
    }

    fn record_active_slot(
        &mut self,
        slot_idx: usize,
        seat: &mut Seat,
        slot_data: T::SlotData,
    ) -> (res: Result<(), Error>)
        requires
            old(self).wf(),
            slot_idx < old(self)@.count,
            old(self)@.next < u64::MAX,
        ensures
            res == Ok::<(), Error>(()),
            final(self).wf(),
            final(self).manager() == old(self).manager(),
            final(self)@ == old(self)@.record(slot_idx as int, slot_data),
            final(seat).active_in(slot_idx as int % 256, old(self)@.next),
    {
        let cur_seqno: u64 = self.use_seqno;
        assert(slot_idx as u8 == slot_idx % 256) by (bit_vector);

        *seat = Seat::Active(
            SeatInfo { slot: #[verifier::truncate] (slot_idx as u8), seqno: cur_seqno },
        );
        self.slots[slot_idx] = Slot::Active(SlotInfo { slot_data, seqno: cur_seqno });
        self.use_seqno += 1;
        Ok(())
    }

    fn activate_slot(
        &mut self,
        slot_idx: usize,
        seat: &mut Seat,
        slot_data: T::SlotData,
    ) -> (res: Result<(), Error>)
        requires
            old(self).wf(),
            slot_idx < old(self)@.count,
            old(self)@.next < u64::MAX,
        ensures
            final(self).wf(),
            T::activated(
                old(self).manager(),
                slot_idx as int,
                slot_data,
                final(self).manager(),
                res,
            ),
            res is Ok ==> {
                &&& final(self)@ == old(self)@.record(slot_idx as int, slot_data)
                &&& final(seat).active_in(slot_idx as int % 256, old(self)@.next)
            },
            res is Err ==> {
                &&& final(self)@ == old(self)@
                &&& *final(seat) == *old(seat)
            },
    {
        let activated = self.manager.activate(slot_idx, &slot_data);
        if activated.is_err() {
            return activated;
        }
        assert(activated->Ok_0 == ());
        self.record_active_slot(slot_idx, seat, slot_data)
    }

    /// Looks for the slot that a seat without one should get: the lowest free
    /// slot, or else the idle slot that was activated the longest ago.
    fn find_slot(&self) -> (res: Option<usize>)
        requires
            self.wf(),
        ensures
            res is None <==> self@.full(),
            res matches Some(i) ==> self@.first_free(i as int) || self@.oldest_idle(i as int),
    {
        let mut idle_slot_idx: Option<usize> = None;
        let mut idle_slot_seqno: u64 = 0;
        let mut slot_idx: usize = 0;
        while slot_idx < self.slot_count
            invariant
                self.wf(),
                slot_idx <= self.slot_count,
                forall|j: int| 0 <= j < slot_idx ==> !(#[trigger] self@.slots[j] is Free),
                idle_slot_idx is None ==> forall|j: int|
                    0 <= j < slot_idx ==> #[trigger] self@.slots[j] is Active,
                idle_slot_idx matches Some(i) ==> {
                    &&& i < slot_idx
                    &&& self@.slots[i as int] is Idle
                    &&& self@.seqno(i as int) == idle_slot_seqno
                    &&& forall|j: int|
                        0 <= j < slot_idx && #[trigger] self@.slots[j] is Idle ==> idle_slot_seqno
                            <= self@.seqno(j)
                },
            decreases self.slot_count - slot_idx,
        {
            match &self.slots[slot_idx] {
                Slot::Free => {
                    assert(self@.first_free(slot_idx as int));
                    return Some(slot_idx);
                },
                Slot::Idle(slot_info) => {
                    if idle_slot_idx.is_none() || slot_info.seqno < idle_slot_seqno {
                        idle_slot_idx = Some(slot_idx);
                        idle_slot_seqno = slot_info.seqno;
                    }
                },
                Slot::Active(_) => (),
            }
            slot_idx += 1;
        }
        idle_slot_idx
    }

    fn allocate_slot(&mut self, seat: &mut Seat, slot_data: T::SlotData) -> (res: Result<
        (),
        Error,
    >)
        requires
            old(self).wf(),
            *old(seat) is NoSeat,
            old(self)@.next < u64::MAX,
        ensures
            final(self).wf(),
            Self::allocated(*old(self), slot_data, *final(self), *final(seat), res),
    {
        proof {
            self@.lemma_allocation_cases();
        }
        match self.find_slot() {
            Some(slot_idx) => {
                // An idle slot is only evicted just before it is reused.
                if let Slot::Idle(slot_info) = &self.slots[slot_idx] {
                    let evicted = self.manager.evict(slot_idx, &slot_info.slot_data);
                    if evicted.is_err() {
                        return evicted;
                    }
                    assert(evicted->Ok_0 == ());
                    assert(T::evicted(
                        old(self).manager(),
                        slot_idx as int,
                        old(self)@.slots[slot_idx as int].info()->Some_0.slot_data,
                        self.manager,
                        Ok(()),
                    ));
                    // The hardware state is gone, whatever the activation comes to.
                    self.slots[slot_idx] = Slot::Free;
                    assert(self@ =~= old(self)@.freed(slot_idx as int));
                    assert(self@.record(slot_idx as int, slot_data) =~= old(self)@.record(
                        slot_idx as int,
                        slot_data,
                    ));
                }
                self.activate_slot(slot_idx, seat, slot_data)
            },
            None => Err(Error::from_errno(EBUSY)),
        }
    }

    fn idle_slot(&mut self, slot_idx: usize, seat: &mut Seat) -> (res: Result<(), Error>)
        requires
            old(self).wf(),
            slot_idx < MAX_SLOTS,
        ensures
            res is Ok,
            final(self).wf(),
            final(self).manager() == old(self).manager(),
            old(self)@.slots[slot_idx as int] is Active ==> final(self)@ == old(self)@.idled(
                slot_idx as int,
            ),
            !(old(self)@.slots[slot_idx as int] is Active) ==> final(self)@ == old(self)@.freed(
                slot_idx as int,
            ),
            match *old(seat) {
                Seat::NoSeat => *final(seat) is NoSeat,
                Seat::Active(info) => *final(seat) == Seat::Idle(info),
                Seat::Idle(info) => *final(seat) == Seat::Idle(info),
            },
    {
        let mut slot: Slot<T::SlotData> = Slot::Free;
        core::mem::swap(&mut slot, &mut self.slots[slot_idx]);

        if let Slot::Active(slot_info) = slot {
            self.slots[slot_idx] = Slot::Idle(
                SlotInfo { slot_data: slot_info.slot_data, seqno: slot_info.seqno },
            );
        }
        *seat = match &*seat {
            Seat::Active(seat_info) => Seat::Idle(seat_info.copy()),
            Seat::Idle(seat_info) => Seat::Idle(seat_info.copy()),
            Seat::NoSeat => Seat::NoSeat,
        };
        Ok(())
    }

    fn evict_slot(&mut self, slot_idx: usize, seat: &mut Seat) -> (res: Result<(), Error>)
        requires
            old(self).wf(),
            slot_idx < MAX_SLOTS,
        ensures
            final(self).wf(),
            match old(self)@.slots[slot_idx as int].info() {
                None => {
                    &&& res is Ok
                    &&& final(self).manager() == old(self).manager()
                    &&& final(self)@ == old(self)@
                    &&& *final(seat) is NoSeat
                },
                Some(info) => {
                    &&& T::evicted(
                        old(self).manager(),
                        slot_idx as int,
                        info.slot_data,
                        final(self).manager(),
                        res,
                    )
                    &&& res is Ok ==> final(self)@ == old(self)@.freed(slot_idx as int)
                        && *final(seat) is NoSeat
                    &&& res is Err ==> final(self)@ == old(self)@ && *final(seat) == *old(seat)
                },
            },
    {
        let evicted = match &self.slots[slot_idx] {
            Slot::Active(slot_info) => self.manager.evict(slot_idx, &slot_info.slot_data),
            Slot::Idle(slot_info) => self.manager.evict(slot_idx, &slot_info.slot_data),
            Slot::Free => Ok(()),
        };
        if evicted.is_err() {
            return evicted;
        }
        self.slots[slot_idx] = Slot::Free;
        proof {
            assert(self@.slots =~= old(self)@.slots.update(slot_idx as int, Slot::Free));
        }
        *seat = Seat::NoSeat;
        evicted
    }

    /// Whether the slot that the seat was given is still its own.
    fn is_bound(&self, seat: &Seat) -> (res: bool)
        requires
            self.wf(),
            self@.accepts(*seat),
        ensures
            res == self@.bound(*seat),
    {
        match seat {
            Seat::Active(seat_info) => match &self.slots[seat_info.slot as usize] {
                Slot::Active(slot_info) => slot_info.seqno == seat_info.seqno,
                _ => false,
            },
            Seat::Idle(seat_info) => match &self.slots[seat_info.slot as usize] {
                Slot::Idle(slot_info) => slot_info.seqno == seat_info.seqno,
                _ => false,
            },
            Seat::NoSeat => false,
        }
    }

    /// Checks and updates the seat state based on the slot it points to
    /// (if any). Returns a seat with a value matching the slot state.
    fn check_seat(&self, seat: &mut Seat) -> (res: Seat)
        requires
            self.wf(),
            self@.accepts(*old(seat)),
        ensures
            res == self@.checked(*old(seat)),
            *final(seat) == res,
    {
        let new_seat = if self.is_bound(seat) {
            seat.copy()
        } else {
            Seat::NoSeat
        };
        *seat = new_seat.copy();
        new_seat
    }

    /// Whether the slot that the seat was given, if any, is one of this manager's.
    pub fn accepts_seat(&self, seat: &Seat) -> (res: bool)
        requires
            self.wf(),
        ensures
            res == self@.accepts(*seat),
    {
        match seat {
            Seat::Active(seat_info) => (seat_info.slot as usize) < self.slots.len(),
            Seat::Idle(seat_info) => (seat_info.slot as usize) < self.slots.len(),
            Seat::NoSeat => true,
        }
    }

    /// The sequence number that the next activation gets.
    pub fn next_seqno(&self) -> (res: u64)
        ensures
            res == self@.next,
    {
        self.use_seqno
    }

    /// The slot that the seat would be given if it were activated now.
    pub fn candidate(&self, seat: &Seat) -> (res: Candidate)
        requires
            self.wf(),
            self@.accepts(*seat),
        ensures
            self@.offers(*seat, res),
    {
        proof {
            self@.lemma_allocation_cases();
        }
        if self.is_bound(seat) {
            return match seat {
                Seat::Active(seat_info) => Candidate::Own(seat_info.slot as usize),
                Seat::Idle(seat_info) => Candidate::Own(seat_info.slot as usize),
                Seat::NoSeat => Candidate::Full,
            };
        }
        match self.find_slot() {
            None => Candidate::Full,
            Some(slot_idx) => match &self.slots[slot_idx] {
                Slot::Idle(_) => Candidate::Idle(slot_idx),
                _ => Candidate::Free(slot_idx),
            },
        }
    }

    /// Gives the seat a slot and attaches `slot_data` to it.
    ///
    /// A seat whose slot is still its own keeps it, and no callback is made:
    /// the hardware state is still valid for both active and idle slots.
    /// Otherwise a slot is allocated (see [`SlotManager::allocated`]).
    pub fn activate(&mut self, seat: &mut Seat, slot_data: T::SlotData) -> (res: Result<(), Error>)
        requires
            old(self).wf(),
            old(self)@.accepts(*old(seat)),
            old(self)@.next < u64::MAX,
        ensures
            final(self).wf(),
            match old(self)@.checked(*old(seat)).info() {
                Some(info) => {
                    &&& res is Ok
                    &&& final(self).manager() == old(self).manager()
                    &&& final(self)@ == old(self)@.record(info.slot(), slot_data)
                    &&& final(seat).active_in(info.slot(), old(self)@.next)
                },
                None => Self::allocated(
                    *old(self),
                    slot_data,
                    *final(self),
                    *final(seat),
                    res,
                ),
            },
            old(self)@.changes(
                *old(seat),
                SlotEvent::Activate(slot_data),
                final(self)@,
                *final(seat),
            ),
            final(self)@.accepts(*final(seat)),
    {
        let ghost offer = self@.lemma_offer_exists(*seat);
        proof {
            self@.lemma_allocation_cases();
            assert(self@.offers(*old(seat), offer));
        }
        match self.check_seat(seat) {
            Seat::Active(seat_info) => self.record_active_slot(
                seat_info.slot as usize,
                seat,
                slot_data,
            ),
            Seat::Idle(seat_info) => self.record_active_slot(
                seat_info.slot as usize,
                seat,
                slot_data,
            ),
            Seat::NoSeat => self.allocate_slot(seat, slot_data),
        }
    }

    /// Lets go of the seat's slot without freeing it: the seat may come back
    /// to it as long as no other seat needed it.
    pub fn idle(&mut self, seat: &mut Seat) -> (res: Result<(), Error>)
        requires
            old(self).wf(),
            old(self)@.accepts(*old(seat)),
        ensures
            res is Ok,
            final(self).wf(),
            final(self).manager() == old(self).manager(),
            match old(self)@.checked(*old(seat)) {
                Seat::Active(info) => {
                    &&& final(self)@ == old(self)@.idled(info.slot())
                    &&& *final(seat) == Seat::Idle(info)
                },
                other => {
                    &&& final(self)@ == old(self)@
                    &&& *final(seat) == other
                },
            },
            old(self)@.changes(*old(seat), SlotEvent::Idle, final(self)@, *final(seat)),
            final(self)@.accepts(*final(seat)),
    {
        match self.check_seat(seat) {
            Seat::Active(seat_info) => self.idle_slot(seat_info.slot as usize, seat),
            _ => Ok(()),
        }
    }

    /// Evicts a seat from its slot, freeing up the hardware resource.
    pub fn evict(&mut self, seat: &mut Seat) -> (res: Result<(), Error>)
        requires
            old(self).wf(),
            old(self)@.accepts(*old(seat)),
        ensures
            final(self).wf(),
            match old(self)@.checked(*old(seat)).info() {
                Some(info) => {
                    &&& T::evicted(
                        old(self).manager(),
                        info.slot(),
                        old(self)@.slots[info.slot()].info()->Some_0.slot_data,
                        final(self).manager(),
                        res,
                    )
                    &&& res is Ok ==> final(self)@ == old(self)@.freed(info.slot())
                        && *final(seat) is NoSeat
                    &&& res is Err ==> final(self)@ == old(self)@ && *final(seat) == *old(seat)
                },
                None => {
                    &&& res is Ok
                    &&& final(self).manager() == old(self).manager()
                    &&& final(self)@ == old(self)@
                    &&& *final(seat) is NoSeat
                },
            },
            old(self)@.changes(*old(seat), SlotEvent::Evict, final(self)@, *final(seat)),
            final(self)@.accepts(*final(seat)),
    {
        match self.check_seat(seat) {
            Seat::Active(seat_info) => self.evict_slot(seat_info.slot as usize, seat),
            Seat::Idle(seat_info) => self.evict_slot(seat_info.slot as usize, seat),
            Seat::NoSeat => Ok(()),
        }
    }

    /// The hardware-specific part.
    pub fn deref(&self) -> (res: &T)
        ensures
            *res == self.manager(),
    {
        &self.manager
    }

    /// The hardware-specific part, to change it.
    pub fn deref_mut(&mut self) -> (res: &mut T)
        ensures
            *res == old(self).manager(),
            *final(res) == final(self).manager(),
            final(self)@ == old(self)@,
    {
        &mut self.manager
    }
}

impl<D> SlotTable<D> {
    /// Where a slot is needed, exactly one of three things is the case: there
    /// is a lowest free slot, or there is an oldest idle slot, or all slots
    /// are active. The slot found is the only one of its kind.
    pub proof fn lemma_allocation_cases(self)
        requires
            self.wf(),
        ensures
            (exists|i: int| self.first_free(i)) || (exists|i: int| self.oldest_idle(i))
                || self.full(),
            forall|i: int, j: int| !(#[trigger] self.first_free(i) && #[trigger] self.oldest_idle(j)),
            forall|i: int| #[trigger] self.first_free(i) ==> !self.full(),
            forall|i: int| #[trigger] self.oldest_idle(i) ==> !self.full(),
            forall|i: int, j: int| #[trigger]
                self.first_free(i) && #[trigger] self.first_free(j) ==> i == j,
            forall|i: int, j: int| #[trigger]
                self.oldest_idle(i) && #[trigger] self.oldest_idle(j) ==> i == j,
    {
        if exists|k: int| 0 <= k < self.count && self.slots[k] is Free {
            let k = choose|k: int| 0 <= k < self.count && self.slots[k] is Free;
            let i = self.lemma_lowest_free(k);
            assert(self.first_free(i));
        } else if exists|k: int| 0 <= k < self.count && self.slots[k] is Idle {
            let k = choose|k: int| 0 <= k < self.count && self.slots[k] is Idle;
            let i = self.lemma_least_idle(k, self.count);
            assert(self.oldest_idle(i));
        } else {
            assert forall|j: int| 0 <= j < self.count implies #[trigger] self.slots[j] is Active by {
                assert(!(self.slots[j] is Free));
                assert(!(self.slots[j] is Idle));
            }
        }
    }

    /// A seat is always offered a slot, or told that there is none.
    proof fn lemma_offer_exists(self, seat: Seat) -> (offer: Candidate)
        requires
            self.wf(),
            self.accepts(seat),
            self.slots.len() <= usize::MAX,
        ensures
            self.offers(seat, offer),
    {
        self.lemma_allocation_cases();
        if self.bound(seat) {
            Candidate::Own(seat.info()->Some_0.slot() as usize)
        } else if exists|i: int| self.first_free(i) {
            Candidate::Free((choose|i: int| self.first_free(i)) as usize)
        } else if exists|i: int| self.oldest_idle(i) {
            Candidate::Idle((choose|i: int| self.oldest_idle(i)) as usize)
        } else {
            Candidate::Full
        }
    }

    /// At or below a free slot there is a lowest one.
    proof fn lemma_lowest_free(self, k: int) -> (i: int)
        requires
            0 <= k < self.count,
            self.slots[k] is Free,
        ensures
            self.first_free(i),
        decreases k,
    {
        if exists|j: int| 0 <= j < k && self.slots[j] is Free {
            let j = choose|j: int| 0 <= j < k && self.slots[j] is Free;
            self.lemma_lowest_free(j)
        } else {
            k
        }
    }

    /// Among the first `n` slots, of which slot `k` is idle, there is an idle
    /// one with the least sequence number.
    proof fn lemma_least_idle(self, k: int, n: int) -> (i: int)
        requires
            0 <= k < n <= self.count,
            self.slots[k] is Idle,
        ensures
            0 <= i < n,
            self.slots[i] is Idle,
            forall|j: int|
                0 <= j < n && #[trigger] self.slots[j] is Idle ==> self.seqno(i) <= self.seqno(j),
        decreases n,
    {
        let last = n - 1;
        if exists|j: int| 0 <= j < last && self.slots[j] is Idle {
            let j = choose|j: int| 0 <= j < last && self.slots[j] is Idle;
            let i = self.lemma_least_idle(j, last);
            if self.slots[last] is Idle && self.seqno(last) < self.seqno(i) {
                last
            } else {
                i
            }
        } else {
            k
        }
    }
}

impl<D> SlotTable<D> {
    /// Whether the slot that `seat` was given now belongs to a different
    /// activation, or to none.
    pub open spec fn lost(self, seat: Seat) -> bool {
        seat.info() matches Some(info) ==> self.slots[info.slot()] is Free || self.seqno(
            info.slot(),
        ) != info.seqno()
    }

    /// A seat is offered one slot at most, or none.
    pub proof fn law_offer_is_unique(self, seat: Seat, a: Candidate, b: Candidate)
        requires
            self.wf(),
            self.offers(seat, a),
            self.offers(seat, b),
        ensures
            a == b,
    {
        self.lemma_allocation_cases();
    }

    /// A slot belongs to one seat at most: two seats that are bound to one
    /// slot are the same claim.
    pub proof fn law_slot_has_one_seat(self, a: Seat, b: Seat)
        requires
            self.bound(a),
            self.bound(b),
            a.info()->Some_0.slot() == b.info()->Some_0.slot(),
        ensures
            a == b,
    {
    }

    /// After an activation of slot `i`, the seat that it was for is bound to
    /// slot `i`. Of all other seats, those that held slot `i` have lost it, and
    /// the rest keep what they had.
    pub proof fn law_activation_rebinds(self, i: int, slot_data: D, seat: Seat, other: Seat)
        requires
            self.wf(),
            self.next < u64::MAX,
            0 <= i < self.count,
            seat.active_in(i, self.next),
            self.issued(other),
        ensures
            self.record(i, slot_data).wf(),
            self.record(i, slot_data).issued(seat),
            self.record(i, slot_data).issued(other),
            self.record(i, slot_data).bound(seat),
            self.record(i, slot_data).bound(other) <==> self.bound(other)
                && other.info()->Some_0.slot() != i,
            self.lost(other) ==> self.record(i, slot_data).lost(other),
    {
    }

    /// Activating a seat anew takes a slot that was not in active use: a seat
    /// that is active stays bound whatever slot another seat is given.
    pub proof fn law_active_seat_is_not_displaced(self, i: int, slot_data: D, other: Seat)
        requires
            self.wf(),
            self.next < u64::MAX,
            self.first_free(i) || self.oldest_idle(i),
            self.issued(other),
            self.bound(other),
            other is Active,
        ensures
            self.record(i, slot_data).bound(other),
    {
    }

    /// The idle seat that loses its slot is the one that was activated the
    /// longest ago: every other idle seat was activated after it.
    pub proof fn law_eviction_takes_the_oldest(self, i: int, victim: Seat, other: Seat)
        requires
            self.wf(),
            self.oldest_idle(i),
            self.issued(victim),
            self.issued(other),
            self.bound(victim),
            self.bound(other),
            victim.info()->Some_0.slot() == i,
            other is Idle,
            other != victim,
        ensures
            victim.info()->Some_0.seqno() < other.info()->Some_0.seqno(),
    {
        let k = other.info()->Some_0.slot();
        if k == i {
            self.law_slot_has_one_seat(victim, other);
        }
        assert(self.slots[k] is Idle);
        assert(!(self.slots[i] is Free) && !(self.slots[k] is Free));
    }

    /// A seat that goes idle keeps its slot, so that activating it again finds
    /// the same slot; no other seat notices.
    pub proof fn law_idle_keeps_slot(self, info: SeatInfo, other: Seat)
        requires
            self.wf(),
            self.issued(Seat::Active(info)),
            self.bound(Seat::Active(info)),
            self.issued(other),
            other != Seat::Active(info),
            other != Seat::Idle(info),
        ensures
            self.idled(info.slot()).wf(),
            self.idled(info.slot()).checked(Seat::Idle(info)) == Seat::Idle(info),
            self.idled(info.slot()).bound(other) <==> self.bound(other),
            self.lost(other) ==> self.idled(info.slot()).lost(other),
    {
    }

    /// A freed slot belongs to no seat, and seats on other slots keep theirs.
    pub proof fn law_freed_slot_is_unbound(self, i: int, other: Seat)
        requires
            self.wf(),
            0 <= i < self.count,
            self.issued(other),
        ensures
            self.freed(i).wf(),
            self.freed(i).issued(other),
            self.freed(i).bound(other) <==> self.bound(other)
                && other.info()->Some_0.slot() != i,
            self.lost(other) ==> self.freed(i).lost(other),
    {
    }

    /// A seat that has lost its slot is never taken for the slot's owner, and
    /// gets no seat when it is checked.
    pub proof fn law_lost_seat_is_rejected(self, seat: Seat)
        requires
            self.lost(seat),
        ensures
            !self.bound(seat),
            self.checked(seat) is NoSeat,
    {
    }
}

impl<T: SlotOperations, const MAX_SLOTS: usize> SlotManager<T, MAX_SLOTS> {
    /// A seat that was given a slot is active and bound to it.
    ///
    /// A seat records its slot in eight bits, so this is said of managers with
    /// no more slots than that.
    pub proof fn law_allocation_binds(
        pre: Self,
        slot_data: T::SlotData,
        post: Self,
        seat: Seat,
        res: Result<(), Error>,
    )
        requires
            pre.wf(),
            pre@.count <= 256,
            pre@.next < u64::MAX,
            Self::allocated(pre, slot_data, post, seat, res),
            res is Ok,
        ensures
            seat is Active,
            post@.issued(seat),
            post@.bound(seat),
            post@.slots[seat.info()->Some_0.slot()].info()->Some_0.slot_data == slot_data,
    {
        pre@.lemma_allocation_cases();
        let i = if exists|i: int| pre@.first_free(i) {
            choose|i: int| pre@.first_free(i)
        } else {
            choose|i: int| pre@.oldest_idle(i)
        };
        assert(pre@.first_free(i) || pre@.oldest_idle(i));
        assert(post@ == pre@.record(i, slot_data) && seat.active_in(i % 256, pre@.next));
    }
}

} // verus!
