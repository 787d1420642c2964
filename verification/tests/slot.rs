//! Hardware slots and the seats they are assigned to.

use drm_tyr::error::{Error, EBUSY, EINVAL, ETIMEDOUT};
use drm_tyr::tyr::slot::{Candidate, NoHardware, Seat, SlotManager, SlotOperations};

/// What the hardware was asked to do.
#[derive(Clone, Copy, Debug, PartialEq, Eq)]
enum Call {
    Activate(usize, u64),
    Evict(usize, u64),
}

/// Slot operations that record what they are asked to do, and fail on demand.
struct Recorder {
    calls: Vec<Call>,
    activate_fails: bool,
    evict_fails: bool,
}

impl Recorder {
    fn new() -> Self {
        Recorder { calls: Vec::new(), activate_fails: false, evict_fails: false }
    }
}

impl SlotOperations for Recorder {
    type SlotData = u64;

    fn activate(&mut self, slot_idx: usize, slot_data: &u64) -> Result<(), Error> {
        self.calls.push(Call::Activate(slot_idx, *slot_data));
        if self.activate_fails {
            return Err(Error::from_errno(ETIMEDOUT));
        }
        Ok(())
    }

    fn evict(&mut self, slot_idx: usize, slot_data: &u64) -> Result<(), Error> {
        self.calls.push(Call::Evict(slot_idx, *slot_data));
        if self.evict_fails {
            return Err(Error::from_errno(ETIMEDOUT));
        }
        Ok(())
    }
}

fn manager(slots: usize) -> SlotManager<Recorder, 4> {
    match SlotManager::new(Recorder::new(), slots) {
        Ok(manager) => manager,
        Err(_) => panic!("the number of slots is in range"),
    }
}

fn code(res: Result<(), Error>) -> i32 {
    match res {
        Ok(()) => 0,
        Err(e) => e.to_errno(),
    }
}

#[test]
fn number_of_slots_has_to_be_in_range() {
    for slots in 0..7 {
        let res = SlotManager::<NoHardware, 4>::new(NoHardware, slots);
        assert_eq!(res.is_ok(), (1..5).contains(&slots));
        if let Err(e) = res {
            assert_eq!(e.to_errno(), EINVAL);
        }
    }
}

#[test]
fn lowest_free_slot_is_taken() {
    let mut slots = manager(3);
    let mut seats = [Seat::default(), Seat::default(), Seat::default()];
    assert_eq!(seats[0].slot(), None);
    for i in 0..3 {
        assert_eq!(code(slots.activate(&mut seats[i], 10 + i as u64)), 0);
        assert_eq!(seats[i].slot(), Some(i as u8));
    }
    assert_eq!(code(slots.evict(&mut seats[1])), 0);
    assert_eq!(seats[1].slot(), None);
    let mut other = Seat::default();
    assert_eq!(code(slots.activate(&mut other, 20)), 0);
    assert_eq!(other.slot(), Some(1));
    assert_eq!(
        slots.deref().calls,
        vec![
            Call::Activate(0, 10),
            Call::Activate(1, 11),
            Call::Activate(2, 12),
            Call::Evict(1, 11),
            Call::Activate(1, 20),
        ]
    );
}

#[test]
fn full_house_is_busy() {
    let mut slots = manager(2);
    let mut a = Seat::default();
    let mut b = Seat::default();
    let mut c = Seat::default();
    assert_eq!(code(slots.activate(&mut a, 1)), 0);
    assert_eq!(code(slots.activate(&mut b, 2)), 0);
    assert_eq!(code(slots.activate(&mut c, 3)), EBUSY);
    assert_eq!(c.slot(), None);
    assert_eq!((a.slot(), b.slot()), (Some(0), Some(1)));
    assert_eq!(slots.deref().calls.len(), 2);
}

#[test]
fn oldest_idle_slot_is_evicted() {
    let mut slots = manager(3);
    let mut a = Seat::default();
    let mut b = Seat::default();
    let mut c = Seat::default();
    let mut d = Seat::default();
    assert_eq!(code(slots.activate(&mut a, 1)), 0);
    assert_eq!(code(slots.activate(&mut b, 2)), 0);
    assert_eq!(code(slots.activate(&mut c, 3)), 0);
    // Activating the first seat again makes it the youngest one.
    assert_eq!(code(slots.activate(&mut a, 1)), 0);
    assert_eq!(code(slots.idle(&mut a)), 0);
    assert_eq!(code(slots.idle(&mut b)), 0);
    assert_eq!(a.slot(), None);
    slots.deref_mut().calls.clear();

    assert_eq!(code(slots.activate(&mut d, 4)), 0);
    assert_eq!(d.slot(), Some(1));
    assert_eq!(slots.deref().calls, vec![Call::Evict(1, 2), Call::Activate(1, 4)]);

    // The seat that lost its slot gets the other idle slot.
    slots.deref_mut().calls.clear();
    assert_eq!(code(slots.activate(&mut b, 5)), 0);
    assert_eq!(b.slot(), Some(0));
    assert_eq!(slots.deref().calls, vec![Call::Evict(0, 1), Call::Activate(0, 5)]);
}

#[test]
fn idle_seat_comes_back_without_a_callback() {
    let mut slots = manager(2);
    let mut a = Seat::default();
    assert_eq!(code(slots.activate(&mut a, 1)), 0);
    assert_eq!(code(slots.idle(&mut a)), 0);
    assert!(matches!(a, Seat::Idle(_)));
    slots.deref_mut().calls.clear();
    assert_eq!(code(slots.activate(&mut a, 2)), 0);
    assert_eq!(a.slot(), Some(0));
    assert!(slots.deref().calls.is_empty());
    // The data that goes with the slot is the new one.
    assert_eq!(code(slots.evict(&mut a)), 0);
    assert_eq!(slots.deref().calls, vec![Call::Evict(0, 2)]);
}

#[test]
fn seat_without_a_slot_is_left_alone() {
    let mut slots = manager(1);
    let mut a = Seat::default();
    let mut b = Seat::default();
    assert_eq!(code(slots.idle(&mut a)), 0);
    assert_eq!(code(slots.evict(&mut a)), 0);
    assert!(slots.deref().calls.is_empty());

    // An idle seat whose slot went to another seat has no slot to evict.
    assert_eq!(code(slots.activate(&mut a, 1)), 0);
    assert_eq!(code(slots.idle(&mut a)), 0);
    assert_eq!(code(slots.activate(&mut b, 2)), 0);
    slots.deref_mut().calls.clear();
    assert_eq!(code(slots.evict(&mut a)), 0);
    assert!(matches!(a, Seat::NoSeat));
    assert!(slots.deref().calls.is_empty());
    assert_eq!(b.slot(), Some(0));
}

#[test]
fn failed_activation_leaves_the_slot_free() {
    let mut slots = manager(1);
    let mut a = Seat::default();
    slots.deref_mut().activate_fails = true;
    assert_eq!(code(slots.activate(&mut a, 1)), ETIMEDOUT);
    assert_eq!(a.slot(), None);
    slots.deref_mut().activate_fails = false;
    assert_eq!(code(slots.activate(&mut a, 2)), 0);
    assert_eq!(a.slot(), Some(0));
    assert_eq!(slots.deref().calls, vec![Call::Activate(0, 1), Call::Activate(0, 2)]);
}

#[test]
fn failed_eviction_keeps_the_seat() {
    let mut slots = manager(1);
    let mut a = Seat::default();
    let mut b = Seat::default();
    assert_eq!(code(slots.activate(&mut a, 1)), 0);
    slots.deref_mut().evict_fails = true;
    assert_eq!(code(slots.evict(&mut a)), ETIMEDOUT);
    assert_eq!(a.slot(), Some(0));

    // An idle slot that cannot be evicted is not handed on.
    assert_eq!(code(slots.idle(&mut a)), 0);
    assert_eq!(code(slots.activate(&mut b, 2)), ETIMEDOUT);
    assert_eq!(b.slot(), None);
    assert_eq!(code(slots.activate(&mut a, 3)), 0);
    assert_eq!(a.slot(), Some(0));
}

#[test]
fn default_operations_do_nothing() {
    let mut slots = SlotManager::<NoHardware, 2>::new(NoHardware, 1).ok().unwrap();
    let mut a = Seat::default();
    let mut b = Seat::default();
    assert_eq!(code(slots.activate(&mut a, 1)), 0);
    assert_eq!(code(slots.idle(&mut a)), 0);
    assert_eq!(code(slots.activate(&mut b, 2)), 0);
    assert_eq!(b.slot(), Some(0));
    assert_eq!(code(slots.activate(&mut a, 3)), EBUSY);
}

#[test]
fn evicted_slot_is_free_when_its_activation_fails() {
    let mut slots = manager(1);
    let mut a = Seat::default();
    let mut b = Seat::default();
    assert_eq!(code(slots.activate(&mut a, 1)), 0);
    assert_eq!(code(slots.idle(&mut a)), 0);
    assert_eq!(slots.candidate(&a), Candidate::Own(0));
    assert_eq!(slots.candidate(&b), Candidate::Idle(0));
    slots.deref_mut().activate_fails = true;
    assert_eq!(code(slots.activate(&mut b, 2)), ETIMEDOUT);
    assert!(matches!(b, Seat::NoSeat));
    // The hardware state of the first seat is gone, so it has to be activated anew.
    assert_eq!(slots.candidate(&a), Candidate::Free(0));
    slots.deref_mut().activate_fails = false;
    slots.deref_mut().calls.clear();
    assert_eq!(code(slots.activate(&mut a, 3)), 0);
    assert_eq!(a.slot(), Some(0));
    assert_eq!(slots.deref().calls, vec![Call::Activate(0, 3)]);
}

#[test]
fn seats_never_share_a_slot() {
    let mut slots = manager(3);
    let mut seats: Vec<Seat> = (0..5).map(|_| Seat::default()).collect();
    // A fixed sequence of operations on five seats and three slots, with failures.
    for step in 0..200usize {
        let k = (step * 7 + step / 5) % 5;
        slots.deref_mut().activate_fails = step % 11 == 3;
        slots.deref_mut().evict_fails = step % 13 == 5;
        let active: Vec<Option<u8>> = seats.iter().map(|seat| seat.slot()).collect();
        match step % 4 {
            0 | 1 => {
                let _ = slots.activate(&mut seats[k], step as u64);
                for other in 0..5 {
                    // Active seats keep their slots.
                    if other != k && active[other].is_some() {
                        assert_eq!(slots.candidate(&seats[other]), own(active[other]));
                    }
                }
            }
            2 => assert_eq!(code(slots.idle(&mut seats[k])), 0),
            _ => {
                let _ = slots.evict(&mut seats[k]);
            }
        }
        let mut taken: Vec<usize> = Vec::new();
        for seat in &seats {
            if let Candidate::Own(slot) = slots.candidate(seat) {
                assert!(slot < 3);
                assert!(!taken.contains(&slot));
                taken.push(slot);
            }
        }
    }
}

fn own(slot: Option<u8>) -> Candidate {
    match slot {
        Some(slot) => Candidate::Own(slot as usize),
        None => Candidate::Full,
    }
}

#[test]
fn seat_of_a_larger_manager_is_told_apart() {
    let mut large = SlotManager::<NoHardware, 8>::new(NoHardware, 8).ok().unwrap();
    let mut seats: Vec<Seat> = (0..8).map(|_| Seat::default()).collect();
    assert_eq!(large.next_seqno(), 1);
    for seat in seats.iter_mut() {
        assert!(large.accepts_seat(seat));
        assert_eq!(code(large.activate(seat, 0)), 0);
        assert!(large.accepts_seat(seat));
    }
    assert_eq!(large.next_seqno(), 9);
    assert_eq!(code(large.idle(&mut seats[7])), 0);

    let mut small = manager(2);
    assert!(small.accepts_seat(&Seat::default()));
    assert!(small.accepts_seat(&seats[3]));
    assert!(!small.accepts_seat(&seats[4]));
    assert!(!small.accepts_seat(&seats[7]));
    // A seat that it can look up there, but did not give, counts for nothing.
    assert_eq!(small.candidate(&seats[3]), Candidate::Free(0));
    assert_eq!(code(small.activate(&mut seats[3], 5)), 0);
    assert_eq!(seats[3].slot(), Some(0));
    assert_eq!(small.next_seqno(), 2);
}
