//! Provides [`Class`] to group wound/wait mutexes to be acquired together
//! and specifies which deadlock avoidance algorithm to use (e.g., wound-wait
//! or wait-die).

use super::{LockTable, Locks};
use vstd::prelude::*;

verus! {

/// What is recorded of a class.
#[derive(Clone, Copy)]
pub struct WwClass {
    /// Where the numbering of acquire contexts starts.
    pub stamp: u64,
    /// Name for the acquire contexts of this class.
    pub acquire_name: &'static str,
    /// Name for the mutexes of this class.
    pub mutex_name: &'static str,
    /// Whether to use wait-die (1) or wound-wait (0).
    pub is_wait_die: u32,
}

/// Used to group mutexes together for deadlock avoidance.
///
/// All mutexes that might be acquired together should use the same class.
pub struct Class {
    id: usize,
    inner: WwClass,
}

impl Class {
    /// The number of the class.
    pub closed spec fn id(self) -> usize {
        self.id
    }

    /// What is recorded of the class.
    pub closed spec fn inner(self) -> WwClass {
        self.inner
    }

    /// Whether this class stands in `locks`.
    pub open spec fn stands_in(self, locks: Locks) -> bool {
        self.id() < locks.classes.len()
    }

    /// Creates a new [`Class`], for which no context has been numbered yet.
    pub fn new_unpinned(locks: &mut LockTable, name: &'static str, is_wait_die: bool) -> (res: Self)
        ensures
            res.id() == old(locks)@.classes.len(),
            res.inner() == (WwClass {
                stamp: 0,
                acquire_name: name,
                mutex_name: name,
                is_wait_die: if is_wait_die {
                    1
                } else {
                    0
                },
            }),
            final(locks)@ == (Locks {
                classes: old(locks)@.classes.push(res.inner()),
                ..old(locks)@
            }),
            old(locks)@.wf() ==> final(locks)@.wf(),
    {
        let inner = WwClass {
            stamp: 0,
            acquire_name: name,
            mutex_name: name,
            is_wait_die: is_wait_die as u32,
        };
        let id: usize = locks.add_class(inner);
        Class { id, inner }
    }

    /// The class with number `id`.
    pub fn from_raw(locks: &LockTable, id: usize) -> (res: Self)
        requires
            id < locks@.classes.len(),
        ensures
            res.id() == id,
            res.inner() == locks@.classes[id as int],
    {
        Class { id, inner: locks.class(id) }
    }

    /// The number of the class.
    pub fn number(&self) -> (res: usize)
        ensures
            res == self.id(),
    {
        self.id
    }

    /// Whether mutexes of this class avoid deadlocks by wait-die, and not by
    /// wound-wait.
    pub fn is_wait_die(&self) -> (res: bool)
        ensures
            res == (self.inner().is_wait_die != 0),
    {
        self.inner.is_wait_die != 0
    }
}

} // verus!
