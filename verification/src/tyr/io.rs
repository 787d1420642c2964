//! Register accesses as values.
//!
//! The driver decides which registers to access, in which order and with which
//! values. What it decides is a sequence of [`RegOp`]s, to be performed one
//! after the other until one fails.

use vstd::prelude::*;
use vstd::std_specs::bits::*;

verus! {

/// Waits until a register shows a bit set or clear.
#[derive(Clone, Copy, Debug, PartialEq, Eq, Structural)]
pub struct Poll {
    /// Offset of the register to read.
    pub offset: usize,
    /// The bits to look at.
    pub mask: u32,
    /// Whether to wait for one of the bits to be set, or for all to be clear.
    pub set: bool,
    /// Time to sleep between two reads, in milliseconds.
    pub sleep_ms: u64,
    /// Time after which to give up, in milliseconds.
    pub timeout_ms: u64,
}

impl Poll {
    /// Whether `status` is what this poll waits for.
    pub open spec fn met(self, status: u32) -> bool {
        (status & self.mask != 0) == self.set
    }

    /// Whether `status` is what this poll waits for.
    pub fn done(&self, status: u32) -> (res: bool)
        ensures
            res == self.met(status),
    {
        (status & self.mask != 0) == self.set
    }
}

/// One access to the register file of the GPU.
#[derive(Clone, Copy, Debug, PartialEq, Eq, Structural)]
pub enum RegOp {
    /// Read the register at `offset`.
    Read { offset: usize },
    /// Write `value` to the register at `offset`.
    Write { offset: usize, value: u32 },
    /// Wait for a register.
    Wait(Poll),
}

/// A poll looks at the bits of its mask alone: if one of them shows in the status, it
/// is met exactly if it waits for a bit to be set, and if none does, exactly if it waits
/// for all to be clear.
pub proof fn law_poll_looks_at_its_bits(poll: Poll, status: u32)
    ensures
        forall|k: u32|
            k < 32 && #[trigger] (status >> k) & 1 == 1 && (poll.mask >> k) & 1 == 1 ==> poll.met(
                status,
            ) == poll.set,
        (forall|k: u32|
            k < 32 ==> !(#[trigger] (status >> k) & 1 == 1 && (poll.mask >> k) & 1 == 1))
            ==> poll.met(status) == !poll.set,
{
    let mask = poll.mask;
    assert forall|k: u32|
        k < 32 && #[trigger] (status >> k) & 1 == 1 && (mask >> k) & 1 == 1 implies poll.met(status)
        == poll.set by {
        assert(status & mask != 0) by (bit_vector)
            requires
                k < 32,
                (status >> k) & 1 == 1,
                (mask >> k) & 1 == 1,
        ;
    }
    if status & mask != 0 {
        let both = status & mask;
        let k = u32_trailing_zeros(both);
        axiom_u32_trailing_zeros(both);
        assert((status >> k) & 1 == 1 && (mask >> k) & 1 == 1) by (bit_vector)
            requires
                both == status & mask,
                k < 32,
                (both >> k) & 1 == 1,
        ;
    }
}

/// A poll is done exactly if its bits are as it waits for them.
pub proof fn law_call_of_done(poll: Poll, status: u32)
    ensures
        forall|res: bool, k: u32|
            #[trigger] call_ensures(Poll::done, (&poll, status), res) && k < 32
                && #[trigger] (status >> k) & 1 == 1 && (poll.mask >> k) & 1 == 1 ==> res
                == poll.set,
        forall|res: bool| #[trigger]
            call_ensures(Poll::done, (&poll, status), res) && (forall|k: u32|
                k < 32 ==> !(#[trigger] (status >> k) & 1 == 1 && (poll.mask >> k) & 1 == 1))
                ==> res == !poll.set,
{
    law_poll_looks_at_its_bits(poll, status);
}

} // verus!
