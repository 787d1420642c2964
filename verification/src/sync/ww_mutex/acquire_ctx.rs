//! Provides [`AcquireCtx`], under which several mutexes of one class are
//! locked.

use super::{
    attempt, Class, CtxRecord, LockKind, LockTable, Locks, Mutex, MutexGuard, Progress,
};
use crate::error::{Error, EBUSY};
use vstd::prelude::*;

verus! {

/// Groups the acquisition of several mutexes of one class.
pub struct AcquireCtx {
    id: usize,
}

/// The number of the context in `ctx`, if there is one.
pub open spec fn number_of(ctx: Option<&AcquireCtx>) -> Option<usize> {
    match ctx {
        None => None,
        Some(c) => Some(c.id()),
    }
}

impl AcquireCtx {
    /// The number of the context.
    pub closed spec fn id(self) -> usize {
        self.id
    }

    /// Whether this context stands in `locks`.
    pub open spec fn stands_in(self, locks: Locks) -> bool {
        self.id() < locks.ctxs.len()
    }

    /// A context that locks mutexes of `class`.
    pub fn new(locks: &mut LockTable, class: &Class) -> (res: Self)
        ensures
            res.id() == old(locks)@.ctxs.len(),
            final(locks)@ == (Locks {
                ctxs: old(locks)@.ctxs.push(
                    CtxRecord { class: class.id(), done: false },
                ),
                ..old(locks)@
            }),
            old(locks)@.wf() && class.stands_in(old(locks)@) ==> final(locks)@.wf(),
    {
        AcquireCtx { id: locks.add_ctx(class.number()) }
    }

    /// The number of the context.
    pub fn number(&self) -> (res: usize)
        ensures
            res == self.id(),
    {
        self.id
    }

    /// Marks the end of the acquire phase: no mutex can be locked under this
    /// context any more.
    pub fn done(&self, locks: &mut LockTable)
        requires
            old(locks)@.wf(),
            self.stands_in(old(locks)@),
        ensures
            final(locks)@.wf(),
            final(locks)@ == (Locks {
                ctxs: old(locks)@.ctxs.update(
                    self.id() as int,
                    CtxRecord { class: old(locks)@.ctxs[self.id() as int].class, done: true },
                ),
                ..old(locks)@
            }),
    {
        locks.finish_ctx(self.id);
    }

    /// Locks `mutex` under this context.
    pub fn lock<T>(&self, locks: &mut LockTable, mutex: &Mutex<T>) -> (res: Progress<MutexGuard>)
        requires
            old(locks)@.wf(),
            self.stands_in(old(locks)@),
            mutex.stands_in(old(locks)@),
        ensures
            final(locks)@.wf(),
            super::attempted(
                old(locks)@,
                mutex.id(),
                Some(self.id()),
                LockKind::Regular,
                final(locks)@,
                res,
            ),
    {
        attempt(locks, mutex, Some(self), LockKind::Regular)
    }

    /// Similar to [`Self::lock`], but can be interrupted by signals.
    pub fn lock_interruptible<T>(&self, locks: &mut LockTable, mutex: &Mutex<T>) -> (res: Progress<MutexGuard>)
        requires
            old(locks)@.wf(),
            self.stands_in(old(locks)@),
            mutex.stands_in(old(locks)@),
        ensures
            final(locks)@.wf(),
            super::attempted(
                old(locks)@,
                mutex.id(),
                Some(self.id()),
                LockKind::Interruptible,
                final(locks)@,
                res,
            ),
    {
        attempt(locks, mutex, Some(self), LockKind::Interruptible)
    }

    /// Locks `mutex` under this context using the slow path.
    pub fn lock_slow<T>(&self, locks: &mut LockTable, mutex: &Mutex<T>) -> (res: Progress<MutexGuard>)
        requires
            old(locks)@.wf(),
            self.stands_in(old(locks)@),
            mutex.stands_in(old(locks)@),
        ensures
            final(locks)@.wf(),
            super::attempted(
                old(locks)@,
                mutex.id(),
                Some(self.id()),
                LockKind::Slow,
                final(locks)@,
                res,
            ),
    {
        attempt(locks, mutex, Some(self), LockKind::Slow)
    }

    /// Similar to [`Self::lock_slow`], but can be interrupted by signals.
    pub fn lock_slow_interruptible<T>(&self, locks: &mut LockTable, mutex: &Mutex<T>) -> (res: Progress<MutexGuard>)
        requires
            old(locks)@.wf(),
            self.stands_in(old(locks)@),
            mutex.stands_in(old(locks)@),
        ensures
            final(locks)@.wf(),
            super::attempted(
                old(locks)@,
                mutex.id(),
                Some(self.id()),
                LockKind::SlowInterruptible,
                final(locks)@,
                res,
            ),
    {
        attempt(locks, mutex, Some(self), LockKind::SlowInterruptible)
    }

    /// Tries to lock `mutex` under this context without blocking.
    pub fn try_lock<T>(&self, locks: &mut LockTable, mutex: &Mutex<T>) -> (res: Result<
        MutexGuard,
        Error,
    >)
        requires
            old(locks)@.wf(),
            self.stands_in(old(locks)@),
            mutex.stands_in(old(locks)@),
        ensures
            final(locks)@.wf(),
            super::attempted(
                old(locks)@,
                mutex.id(),
                Some(self.id()),
                LockKind::Try,
                final(locks)@,
                Progress::Done(res),
            ),
    {
        match attempt(locks, mutex, Some(self), LockKind::Try) {
            Progress::Done(res) => res,
            Progress::Wait => Err(Error::from_errno(EBUSY)),
        }
    }
}

} // verus!
