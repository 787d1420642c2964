//! A high-level [`Mutex`] execution helper.
//!
//! Provides a retrying lock mechanism on top of [`Mutex`] and [`AcquireCtx`].
//! It detects `EDEADLK` and handles it by rolling back and retrying the
//! user-supplied locking algorithm until success.

use super::{
    lock_common, AcquireCtx, Class, CtxRecord, Holder, LockKind, LockTable, Locks,
    Mutex, MutexGuard, Progress,
};
use crate::error::{Error, EDEADLK, EINVAL};
use vstd::prelude::*;

verus! {

/// High-level execution type for ww_mutex.
///
/// Tracks a series of locks acquired under a common [`AcquireCtx`].
/// It ensures proper cleanup and retry mechanism on deadlocks and provides
/// type-safe access to locked data via [`ExecContext::with_locked`].
///
/// Typical usage is through [`ExecContext::lock_all`], which goes through a
/// user-supplied locking algorithm until it succeeds without deadlock.
pub struct ExecContext<'a> {
    class: &'a Class,
    acquire: AcquireCtx,
    taken: Vec<MutexGuard>,
}

/// What passes through a locking algorithm come to.
pub enum Pass<Z> {
    /// There is a result.
    Done(Result<Z, Error>),
    /// Every pass ran into a deadlock that was rolled back, and the algorithm is
    /// to be run again.
    Retry,
}

/// The numbers of the mutexes that `guards` hold.
pub open spec fn mutexes_of(guards: Seq<MutexGuard>) -> Seq<int> {
    guards.map_values(|guard: MutexGuard| guard.mutex())
}

impl<'a> ExecContext<'a> {
    /// The number of the class that all locks belong to.
    pub closed spec fn class_id(self) -> usize {
        self.class.id()
    }

    /// The number of the acquire context in use.
    pub closed spec fn ctx_id(self) -> usize {
        self.acquire.id()
    }

    /// The numbers of the mutexes that are held, in the order of their
    /// acquisition.
    pub closed spec fn taken(self) -> Seq<int> {
        mutexes_of(self.taken@)
    }

    /// Whether the mutexes that this context took are held under its acquire
    /// context, each of them once.
    pub open spec fn wf(self, locks: Locks) -> bool {
        &&& locks.wf()
        &&& self.class_id() < locks.classes.len()
        &&& self.ctx_id() < locks.ctxs.len()
        &&& locks.ctxs[self.ctx_id() as int].class == self.class_id()
        &&& forall|i: int|
            0 <= i < self.taken().len() ==> 0 <= #[trigger] self.taken()[i] < locks.words.len()
                && locks.words[self.taken()[i]].holder == Some(
                Holder::Ctx(self.ctx_id()),
            )
        &&& forall|i: int, j: int|
            0 <= i < j < self.taken().len() ==> #[trigger] self.taken()[i]
                != #[trigger] self.taken()[j]
    }

    /// Creates a new [`ExecContext`] for the given lock class.
    ///
    /// All locks taken through this context must belong to the same class.
    ///
    /// `room` says whether there is memory for an acquire context; if not, its
    /// error is returned.
    pub fn new(locks: &mut LockTable, class: &'a Class, room: Result<(), Error>) -> (res: Result<
        Self,
        Error,
    >)
        requires
            old(locks)@.wf(),
            class.stands_in(old(locks)@),
        ensures
            match room {
                Err(e) => res matches Err(f) && f == e && final(locks)@ == old(locks)@,
                Ok(_) => res matches Ok(ctx) && {
                    &&& ctx.wf(final(locks)@)
                    &&& ctx.class_id() == class.id()
                    &&& ctx.ctx_id() == old(locks)@.ctxs.len()
                    &&& ctx.taken().len() == 0
                    &&& final(locks)@ == (Locks {
                        ctxs: old(locks)@.ctxs.push(
                            CtxRecord { class: class.id(), done: false },
                        ),
                        ..old(locks)@
                    })
                },
            },
    {
        if let Err(e) = room {
            return Err(e);
        }
        let acquire = AcquireCtx::new(locks, class);
        Ok(ExecContext { class, acquire, taken: Vec::new() })
    }

    /// Keeps a guard that was just acquired, or lets its mutex go again where
    /// there is no room for it.
    fn keep(
        &mut self,
        locks: &mut LockTable,
        guard: MutexGuard,
        room: Result<(), Error>,
    ) -> (res: Result<(), Error>)
        requires
            old(locks)@.wf(),
            0 <= guard.mutex() < old(locks)@.words.len(),
            old(locks)@.locked(guard.mutex()),
        ensures
            final(self).class_id() == old(self).class_id(),
            final(self).ctx_id() == old(self).ctx_id(),
            match room {
                Ok(_) => {
                    &&& res is Ok
                    &&& final(locks)@ == old(locks)@
                    &&& final(self).taken() == old(self).taken().push(guard.mutex())
                },
                Err(e) => {
                    &&& res matches Err(f) && f == e
                    &&& final(locks)@ == old(locks)@.unlocked(guard.mutex())
                    &&& final(self).taken() == old(self).taken()
                },
            },
    {
        match room {
            Ok(()) => {
                self.taken.push(guard);
                assert(self.taken() =~= old(self).taken().push(guard.mutex()));
                Ok(())
            },
            Err(e) => {
                guard.unlock(locks);
                Err(e)
            },
        }
    }

    /// Attempts to lock a [`Mutex`] and records the guard.
    ///
    /// A mutex that is held has to be waited for: [`ExecContext::lock_replied`]
    /// takes what the wait comes to.
    ///
    /// `room` says whether there is memory to record the guard; if not, its
    /// error is returned.
    pub fn lock<T>(
        &mut self,
        locks: &mut LockTable,
        mutex: &Mutex<T>,
        room: Result<(), Error>,
    ) -> (res: Progress<()>)
        requires
            old(self).wf(old(locks)@),
            mutex.stands_in(old(locks)@),
        ensures
            final(self).wf(final(locks)@),
            final(self).class_id() == old(self).class_id(),
            final(self).ctx_id() == old(self).ctx_id(),
            match super::prompt_reply(
                old(locks)@,
                mutex.id(),
                Some(old(self).ctx_id()),
                LockKind::Regular,
            ) {
                _ if old(locks)@.words[mutex.id()].class != old(self).class_id() => {
                    &&& res matches Progress::Done(Err(e)) && e.code() == EINVAL
                    &&& final(locks)@ == old(locks)@
                    &&& final(self).taken() == old(self).taken()
                },
                None => {
                    &&& res is Wait
                    &&& final(locks)@ == old(locks)@
                    &&& final(self).taken() == old(self).taken()
                },
                Some(ret) => res matches Progress::Done(r) && old(self).locked_with(
                    old(locks)@,
                    mutex.id(),
                    ret,
                    room,
                    *final(self),
                    final(locks)@,
                    r,
                ),
            },
    {
        proof {
            if !locks@.locked(mutex.id()) {
                locks@.law_unlock_undoes_lock(mutex.id(), Holder::Ctx(self.ctx_id()));
            }
        }
        match self.acquire.lock(locks, mutex) {
            Progress::Wait => Progress::Wait,
            Progress::Done(Err(e)) => Progress::Done(Err(e)),
            Progress::Done(Ok(guard)) => Progress::Done(self.keep(locks, guard, room)),
        }
    }

    /// What it comes to that the lock primitive replied `ret` to an attempt to
    /// lock mutex `m`, which belongs to this context's class.
    pub open spec fn locked_with(
        self,
        locks: Locks,
        m: int,
        ret: int,
        room: Result<(), Error>,
        post: Self,
        post_locks: Locks,
        res: Result<(), Error>,
    ) -> bool {
        match super::refusal(LockKind::Regular, ret) {
            Some(code) => {
                &&& res matches Err(e) && e.code() == code
                &&& post_locks == locks
                &&& post.taken() == self.taken()
            },
            None => match room {
                Ok(_) => {
                    &&& res is Ok
                    &&& post_locks == locks.granted(m, Holder::Ctx(self.ctx_id()))
                    &&& post.taken() == self.taken().push(m)
                },
                Err(e) => {
                    &&& res matches Err(f) && f == e
                    &&& post_locks == locks
                    &&& post.taken() == self.taken()
                },
            },
        }
    }

    /// Records what the lock primitive replied to an attempt to lock a
    /// [`Mutex`].
    ///
    /// Returns `EDEADLK` if lock ordering would cause a deadlock.
    pub fn lock_replied<T>(
        &mut self,
        locks: &mut LockTable,
        mutex: &Mutex<T>,
        ret: i32,
        room: Result<(), Error>,
    ) -> (res: Result<(), Error>)
        requires
            old(self).wf(old(locks)@),
            mutex.stands_in(old(locks)@),
            old(locks)@.words[mutex.id()].class == old(self).class_id() && ret >= 0
                ==> !old(locks)@.locked(mutex.id()),
        ensures
            final(self).wf(final(locks)@),
            final(self).class_id() == old(self).class_id(),
            final(self).ctx_id() == old(self).ctx_id(),
            if old(locks)@.words[mutex.id()].class != old(self).class_id() {
                &&& res matches Err(e) && e.code() == EINVAL
                &&& final(locks)@ == old(locks)@
                &&& final(self).taken() == old(self).taken()
            } else {
                old(self).locked_with(
                    old(locks)@,
                    mutex.id(),
                    ret as int,
                    room,
                    *final(self),
                    final(locks)@,
                    res,
                )
            },
    {
        proof {
            if !locks@.locked(mutex.id()) {
                locks@.law_unlock_undoes_lock(mutex.id(), Holder::Ctx(self.ctx_id()));
            }
        }
        match lock_common(locks, mutex, Some(&self.acquire), LockKind::Regular, ret) {
            Ok(guard) => self.keep(locks, guard, room),
            Err(e) => Err(e),
        }
    }

    /// Releases all currently held locks in this context.
    pub fn release_all_locks(&mut self, locks: &mut LockTable)
        requires
            old(self).wf(old(locks)@),
        ensures
            final(self).wf(final(locks)@),
            final(self).class_id() == old(self).class_id(),
            final(self).ctx_id() == old(self).ctx_id(),
            final(self).taken().len() == 0,
            final(locks)@ == old(locks)@.released(old(self).taken()),
    {
        let ghost all = self.taken();
        let ghost before = locks@;
        while self.taken.len() > 0
            invariant
                self.wf(locks@),
                self.class_id() == old(self).class_id(),
                self.ctx_id() == old(self).ctx_id(),
                self.taken().len() == self.taken@.len(),
                self.taken().len() <= all.len(),
                self.taken() == all.take(self.taken().len() as int),
                locks@ == before.released(all.skip(self.taken().len() as int)),
                forall|i: int| 0 <= i < all.len() ==> 0 <= #[trigger] all[i] < before.words.len(),
            decreases self.taken@.len(),
        {
            let ghost n = self.taken@.len();
            let ghost held = *self;
            assert(held.taken()[n - 1] == all[n - 1]);
            if let Some(guard) = self.taken.pop() {
                assert(guard.mutex() == all[n - 1]);
                assert(self.taken() =~= held.taken().drop_last());
                guard.unlock(locks);
                proof {
                    lemma_release_one_more(before, all, n as int);
                    assert forall|i: int| 0 <= i < self.taken().len() implies 0
                        <= #[trigger] self.taken()[i] < locks@.words.len()
                        && locks@.words[self.taken()[i]].holder == Some(
                        Holder::Ctx(self.ctx_id()),
                    ) by {
                        assert(self.taken()[i] == held.taken()[i]);
                        assert(held.taken()[i] != held.taken()[n - 1]);
                    }
                    assert forall|i: int, j: int| 0 <= i < j < self.taken().len() implies
                        #[trigger] self.taken()[i] != #[trigger] self.taken()[j] by {
                        assert(held.taken()[i] != held.taken()[j]);
                    }
                }
            }
        }
        assert(all.skip(0) =~= all);
    }

    /// Resets this context after a deadlock detection.
    ///
    /// Drops all held locks and takes a fresh [`AcquireCtx`].
    ///
    /// `room` says whether there is memory for it; if not, its error is
    /// returned and the old one stays.
    pub fn cleanup_on_deadlock(&mut self, locks: &mut LockTable, room: Result<(), Error>) -> (res:
        Result<(), Error>)
        requires
            old(self).wf(old(locks)@),
        ensures
            res is Ok <==> room is Ok,
            old(self).cleaned_up(old(locks)@, room, *final(self), final(locks)@),
            res matches Err(e) ==> room == Err::<(), Error>(e),
    {
        self.release_all_locks(locks);
        self.renew(locks, room)
    }

    /// Takes a fresh [`AcquireCtx`], if there is room for it.
    fn renew(&mut self, locks: &mut LockTable, room: Result<(), Error>) -> (res: Result<(), Error>)
        requires
            old(self).wf(old(locks)@),
            old(self).taken().len() == 0,
        ensures
            final(self).wf(final(locks)@),
            final(self).class_id() == old(self).class_id(),
            final(self).taken().len() == 0,
            match room {
                Err(e) => {
                    &&& res matches Err(f) && f == e
                    &&& final(self).ctx_id() == old(self).ctx_id()
                    &&& final(locks)@ == old(locks)@
                },
                Ok(_) => {
                    &&& res is Ok
                    &&& final(self).ctx_id() == old(locks)@.ctxs.len()
                    &&& final(locks)@ == (Locks {
                        ctxs: old(locks)@.ctxs.push(
                            CtxRecord { class: old(self).class_id(), done: false },
                        ),
                        ..old(locks)@
                    })
                },
            },
    {
        if let Err(e) = room {
            return Err(e);
        }
        self.acquire = AcquireCtx::new(locks, self.class);
        Ok(())
    }

    /// What is left after a deadlock was rolled back: all locks are let go, and
    /// a fresh acquire context of the same class is in use if there was room
    /// for one.
    pub open spec fn cleaned_up(
        self,
        locks: Locks,
        room: Result<(), Error>,
        post: Self,
        post_locks: Locks,
    ) -> bool {
        &&& post.wf(post_locks)
        &&& post.class_id() == self.class_id()
        &&& post.taken().len() == 0
        &&& match room {
            Err(_) => {
                &&& post.ctx_id() == self.ctx_id()
                &&& post_locks == locks.released(self.taken())
            },
            Ok(_) => {
                &&& post.ctx_id() == locks.ctxs.len()
                &&& post_locks == (Locks {
                    ctxs: locks.ctxs.push(CtxRecord { class: self.class_id(), done: false }),
                    ..locks.released(self.taken())
                })
            },
        }
    }

    /// Executes `f` with a mutable reference to the data behind `mutex`.
    ///
    /// Fails with `EINVAL` if the mutex was not locked in this context.
    pub fn with_locked<T, Y, F: FnOnce(&mut T) -> Y>(&self, mutex: &mut Mutex<T>, f: F) -> (res:
        Result<Y, Error>)
        requires
            self.taken().contains(old(mutex).id()) ==> forall|v: &mut T| *v == old(mutex).data()
                ==> call_requires(f, (v,)),
        ensures
            final(mutex).id() == old(mutex).id(),
            match res {
                Ok(y) => self.taken().contains(old(mutex).id()) && exists|v: &mut T|
                    *v == old(mutex).data() && *final(v) == final(mutex).data() && call_ensures(
                        f,
                        (v,),
                        y,
                    ),
                Err(e) => !self.taken().contains(old(mutex).id()) && e.code() == EINVAL
                    && *final(mutex) == *old(mutex),
            },
    {
        // Find the matching guard.
        let mut i: usize = 0;
        while i < self.taken.len()
            invariant
                i <= self.taken@.len(),
                self.taken().len() == self.taken@.len(),
                *mutex == *old(mutex),
                forall|j: int| 0 <= j < i ==> self.taken()[j] != mutex.id(),
                self.taken().contains(old(mutex).id()) ==> forall|v: &mut T|
                    *v == old(mutex).data() ==> call_requires(f, (v,)),
            decreases self.taken@.len() - i,
        {
            let guard = &self.taken[i];
            if guard.number() == mutex.number() {
                assert(self.taken()[i as int] == mutex.id());
                let y = f(guard.deref_mut(mutex));
                return Ok(y);
            }
            i += 1;
        }
        // `mutex` isn't locked in this context.
        Err(Error::from_errno(EINVAL))
    }

    /// Whether this context may be what a locking algorithm that was first given
    /// `first` is given: it is in order and of the same class, and no mutex has
    /// gone away.
    pub open spec fn succeeds(self, locks: Locks, first: Self, first_locks: Locks) -> bool {
        &&& self.wf(locks)
        &&& self.class_id() == first.class_id()
        &&& locks.words.len() >= first_locks.words.len()
        &&& forall|m: int|
            0 <= m < first_locks.words.len() ==> (#[trigger] locks.words[m]).class
                == first_locks.words[m].class
    }

    /// Runs `locking_algorithm` until success with retrying on deadlock, `passes`
    /// times at the most.
    ///
    /// `locking_algorithm` should attempt to acquire all needed locks.
    /// If it reports `EDEADLK`, this function will roll back, reset the context
    /// and retry automatically. `allocate` makes room for the fresh acquire
    /// context; where it fails, its error is returned.
    ///
    /// Once all locks are acquired successfully, `on_all_locks_taken` is
    /// invoked for exclusive access to the locked values. Afterwards, all
    /// locks are released.
    ///
    /// Any other error of `locking_algorithm` is returned, and what was locked
    /// up to then stays locked.
    pub fn lock_all<T, Y, A, Z>(
        &mut self,
        locks: &mut LockTable,
        passes: u64,
        locking_algorithm: T,
        on_all_locks_taken: Y,
        allocate: A,
    ) -> (res: Pass<Z>) where
        T: Fn(&mut ExecContext<'a>, &mut LockTable) -> Result<(), Error>,
        Y: FnOnce(&mut ExecContext<'a>, &mut LockTable) -> Result<Z, Error>,
        A: Fn() -> Result<(), Error>,

        requires
            old(self).wf(old(locks)@),
            call_requires(allocate, ()),
            // The algorithm can be run, and leaves the context in order.
            forall|c: &mut ExecContext<'a>, t: &mut LockTable|
                c.succeeds(t@, *old(self), old(locks)@) ==> #[trigger] call_requires(
                    locking_algorithm,
                    (c, t),
                ),
            forall|c: &mut ExecContext<'a>, t: &mut LockTable, r: Result<(), Error>|
                c.succeeds(t@, *old(self), old(locks)@) && #[trigger] call_ensures(
                    locking_algorithm,
                    (c, t),
                    r,
                ) ==> final(c).succeeds(final(t)@, *old(self), old(locks)@),
            // Where the algorithm succeeds, the same is true of the work on the
            // locked values.
            forall|
                c: &mut ExecContext<'a>,
                t: &mut LockTable,
                r: Result<(), Error>,
                d: &mut ExecContext<'a>,
                u: &mut LockTable,
            |
                c.succeeds(t@, *old(self), old(locks)@) && #[trigger] call_ensures(
                    locking_algorithm,
                    (c, t),
                    r,
                ) && r is Ok && *d == *final(c) && *u == *final(t) ==> #[trigger] call_requires(
                    on_all_locks_taken,
                    (d, u),
                ),
            forall|
                c: &mut ExecContext<'a>,
                t: &mut LockTable,
                r: Result<(), Error>,
                d: &mut ExecContext<'a>,
                u: &mut LockTable,
                z: Result<Z, Error>,
            |
                c.succeeds(t@, *old(self), old(locks)@) && #[trigger] call_ensures(
                    locking_algorithm,
                    (c, t),
                    r,
                ) && r is Ok && *d == *final(c) && *u == *final(t) && #[trigger] call_ensures(
                    on_all_locks_taken,
                    (d, u),
                    z,
                ) ==> final(d).wf(final(u)@),
        ensures
            final(self).wf(final(locks)@),
            // A number of passes ran into a deadlock: each of them turned `starts`
            // into `stops`, and was rolled back to what the next one starts with.
            exists|
                starts: Seq<(ExecContext<'a>, LockTable)>,
                stops: Seq<(ExecContext<'a>, LockTable)>,
                errors: Seq<Error>,
            |
                {
                    &&& #[trigger] rolled_back(starts, stops, errors)
                    &&& starts[0] == (*old(self), *old(locks))
                    &&& stops.len() <= passes
                    &&& stops.len() > 0 ==> errors[0].code() == EDEADLK && call_ensures(
                        allocate,
                        (),
                        Ok(()),
                    )
                    &&& forall|i: int|
                        0 <= i < stops.len() && (#[trigger] errors[i]).code() == EDEADLK
                            ==> exists|c: &mut ExecContext<'a>, t: &mut LockTable|
                            {
                                &&& *c == starts[i].0 && *t == starts[i].1
                                &&& *final(c) == stops[i].0 && *final(t) == stops[i].1
                                &&& #[trigger] call_ensures(
                                    locking_algorithm,
                                    (c, t),
                                    Err(errors[i]),
                                )
                            }
                    &&& if stops.len() == passes {
                        // No pass is left.
                        res is Retry && starts.last() == (*final(self), *final(locks))
                    } else {
                        // The last pass came to `r`.
                        exists|c: &mut ExecContext<'a>, t: &mut LockTable, r: Result<(), Error>|
                            *c == starts.last().0 && *t == starts.last().1
                                && #[trigger] call_ensures(locking_algorithm, (c, t), r)
                                && match r {
                                // All locks were taken, worked on, and released.
                                Ok(_) => res matches Pass::Done(z) && exists|
                                    d: &mut ExecContext<'a>,
                                    u: &mut LockTable,
                                |
                                    {
                                        &&& *d == *final(c) && *u == *final(t)
                                        &&& #[trigger] call_ensures(on_all_locks_taken, (d, u), z)
                                        &&& final(self).class_id() == final(d).class_id()
                                        &&& final(self).ctx_id() == final(d).ctx_id()
                                        &&& final(self).taken().len() == 0
                                        &&& final(locks)@ == final(u)@.released(final(d).taken())
                                    },
                                // A deadlock was rolled back, and there was no room
                                // for a fresh acquire context.
                                Err(e) if e.code() == EDEADLK => {
                                    &&& res matches Pass::Done(Err(f)) && call_ensures(
                                        allocate,
                                        (),
                                        Err(f),
                                    ) && final(c).cleaned_up(
                                        final(t)@,
                                        Err(f),
                                        *final(self),
                                        final(locks)@,
                                    )
                                },
                                // Another error is passed on, and the locks stay.
                                Err(e) => {
                                    &&& res matches Pass::Done(Err(g)) && g == e
                                    &&& *final(self) == *final(c)
                                    &&& *final(locks) == *final(t)
                                },
                            }
                    }
                },
    {
        let ghost mut starts: Seq<(ExecContext<'a>, LockTable)> = seq![(*self, *locks)];
        let ghost mut stops: Seq<(ExecContext<'a>, LockTable)> = seq![];
        let ghost mut errors: Seq<Error> = seq![];
        let mut pass: u64 = 0;
        while pass < passes
            invariant
                pass <= passes,
                self.succeeds(locks@, *old(self), old(locks)@),
                rolled_back(starts, stops, errors),
                starts[0] == (*old(self), *old(locks)),
                starts.last() == (*self, *locks),
                stops.len() == pass,
                stops.len() > 0 ==> call_ensures(allocate, (), Ok(())),
                forall|i: int|
                    0 <= i < stops.len() && (#[trigger] errors[i]).code() == EDEADLK ==> exists|
                        c: &mut ExecContext<'a>,
                        t: &mut LockTable,
                    |
                        {
                            &&& *c == starts[i].0 && *t == starts[i].1
                            &&& *final(c) == stops[i].0 && *final(t) == stops[i].1
                            &&& #[trigger] call_ensures(locking_algorithm, (c, t), Err(errors[i]))
                        },
                call_requires(allocate, ()),
                forall|c: &mut ExecContext<'a>, t: &mut LockTable|
                    c.succeeds(t@, *old(self), old(locks)@) ==> #[trigger] call_requires(
                        locking_algorithm,
                        (c, t),
                    ),
                forall|c: &mut ExecContext<'a>, t: &mut LockTable, r: Result<(), Error>|
                    c.succeeds(t@, *old(self), old(locks)@) && #[trigger] call_ensures(
                        locking_algorithm,
                        (c, t),
                        r,
                    ) ==> final(c).succeeds(final(t)@, *old(self), old(locks)@),
                forall|
                    c: &mut ExecContext<'a>,
                    t: &mut LockTable,
                    r: Result<(), Error>,
                    d: &mut ExecContext<'a>,
                    u: &mut LockTable,
                |
                    c.succeeds(t@, *old(self), old(locks)@) && #[trigger] call_ensures(
                        locking_algorithm,
                        (c, t),
                        r,
                    ) && r is Ok && *d == *final(c) && *u == *final(t) ==> #[trigger] call_requires(
                        on_all_locks_taken,
                        (d, u),
                    ),
                forall|
                    c: &mut ExecContext<'a>,
                    t: &mut LockTable,
                    r: Result<(), Error>,
                    d: &mut ExecContext<'a>,
                    u: &mut LockTable,
                    z: Result<Z, Error>,
                |
                    c.succeeds(t@, *old(self), old(locks)@) && #[trigger] call_ensures(
                        locking_algorithm,
                        (c, t),
                        r,
                    ) && r is Ok && *d == *final(c) && *u == *final(t) && #[trigger] call_ensures(
                        on_all_locks_taken,
                        (d, u),
                        z,
                    ) ==> final(d).wf(final(u)@),
            decreases passes - pass,
        {
            match locking_algorithm(self, locks) {
                Ok(()) => {
                    // All locks in `locking_algorithm` succeeded.
                    // The user can now safely use them in `on_all_locks_taken`.
                    let res = on_all_locks_taken(self, locks);
                    self.release_all_locks(locks);
                    return Pass::Done(res);
                },
                Err(e) => {
                    if e.to_errno() != EDEADLK {
                        return Pass::Done(Err(e));
                    }
                    let ghost stop = (*self, *locks);
                    // Deadlock detected, retry from scratch: the locks are let go
                    // before room is made for a fresh acquire context.
                    self.release_all_locks(locks);
                    let room = allocate();
                    assert(room->Ok_0 == ());
                    if let Err(e) = self.renew(locks, room) {
                        return Pass::Done(Err(e));
                    }
                    proof {
                        starts = starts.push((*self, *locks));
                        stops = stops.push(stop);
                        errors = errors.push(e);
                    }
                },
            }
            pass += 1;
        }
        Pass::Retry
    }
}

/// Whether each pass ended in a deadlock, of which it made an error in `errors`,
/// and what it left in `stops` was rolled back to what the next one in `starts`
/// began with.
pub open spec fn rolled_back<'a>(
    starts: Seq<(ExecContext<'a>, LockTable)>,
    stops: Seq<(ExecContext<'a>, LockTable)>,
    errors: Seq<Error>,
) -> bool {
    &&& starts.len() == stops.len() + 1
    &&& errors.len() == stops.len()
    &&& forall|i: int| 0 <= i < errors.len() ==> (#[trigger] errors[i]).code() == EDEADLK
    &&& forall|i: int|
        #![trigger stops[i]]
        0 <= i < stops.len() ==> stops[i].0.cleaned_up(
            stops[i].1@,
            Ok(()),
            starts[i + 1].0,
            starts[i + 1].1@,
        )
}

/// Releasing the last `n` of `all` is releasing one of them after the others.
proof fn lemma_release_one_more(locks: Locks, all: Seq<int>, n: int)
    requires
        0 < n <= all.len(),
        forall|i: int| 0 <= i < all.len() ==> 0 <= #[trigger] all[i] < locks.words.len(),
    ensures
        locks.released(all.skip(n)).unlocked(all[n - 1]) == locks.released(all.skip(n - 1)),
{
    let fewer = all.skip(n);
    let more = all.skip(n - 1);
    assert forall|m: int| more.contains(m) <==> fewer.contains(m) || m == all[n - 1] by {
        if more.contains(m) {
            let k = choose|k: int| 0 <= k < more.len() && more[k] == m;
            if k > 0 {
                assert(fewer[k - 1] == m);
            }
        }
        if fewer.contains(m) {
            let k = choose|k: int| 0 <= k < fewer.len() && fewer[k] == m;
            assert(more[k + 1] == m);
        }
        assert(more[0] == all[n - 1]);
    }
    assert(locks.released(fewer).unlocked(all[n - 1]).words =~= locks.released(more).words);
}

/// No mutex is held by two contexts at once.
pub proof fn law_contexts_hold_different_mutexes(
    locks: Locks,
    a: ExecContext<'_>,
    b: ExecContext<'_>,
    m: int,
)
    requires
        a.wf(locks),
        b.wf(locks),
        a.ctx_id() != b.ctx_id(),
        a.taken().contains(m),
    ensures
        !b.taken().contains(m),
{
    if b.taken().contains(m) {
        let i = choose|i: int| 0 <= i < a.taken().len() && a.taken()[i] == m;
        let j = choose|j: int| 0 <= j < b.taken().len() && b.taken()[j] == m;
        assert(locks.words[a.taken()[i]].holder == locks.words[b.taken()[j]].holder);
    }
}

/// Every mutex that a context holds belongs to the context's class.
pub proof fn law_held_mutexes_share_the_class(locks: Locks, a: ExecContext<'_>, m: int)
    requires
        a.wf(locks),
        a.taken().contains(m),
    ensures
        locks.locked(m),
        locks.words[m].class == a.class_id(),
{
    let i = choose|i: int| 0 <= i < a.taken().len() && a.taken()[i] == m;
    assert(locks.words[a.taken()[i]].holder is Some);
}

/// Releasing the locks of a context frees every mutex that it held, and leaves
/// all other mutexes as they were.
pub proof fn law_release_frees_what_was_held(locks: Locks, a: ExecContext<'_>, m: int)
    requires
        a.wf(locks),
        0 <= m < locks.words.len(),
    ensures
        a.taken().contains(m) ==> !locks.released(a.taken()).locked(m),
        !a.taken().contains(m) ==> locks.released(a.taken()).words[m] == locks.words[m],
{
}

/// A negative reply of the lock primitive is reported and changes nothing. Any other
/// hands the mutex to the context, which lists it last of those that it holds; where
/// there is no room to list it, that is reported, and nothing has changed either.
pub proof fn law_reply_decides_what_is_held<'a>(
    pre: ExecContext<'a>,
    locks: Locks,
    m: int,
    ret: int,
    room: Result<(), Error>,
    post: ExecContext<'a>,
    post_locks: Locks,
    res: Result<(), Error>,
    other: int,
)
    requires
        pre.locked_with(locks, m, ret, room, post, post_locks, res),
        0 <= m < locks.words.len(),
        0 <= other < locks.words.len(),
    ensures
        res is Ok <==> ret >= 0 && room is Ok,
        res is Err ==> post_locks == locks && post.taken() == pre.taken(),
        -4095 <= ret < 0 ==> (res matches Err(e) && e.code() == ret),
        ret < -4095 ==> (res matches Err(e) && e.code() == -22),
        ret >= 0 ==> (room matches Err(e) ==> (res matches Err(f) && f == e)),
        res is Ok ==> {
            &&& post_locks.words[m].holder == Some(Holder::Ctx(pre.ctx_id()))
            &&& other != m ==> post_locks.words[other] == locks.words[other]
            &&& post_locks.ctxs == locks.ctxs
            &&& post.taken().len() == pre.taken().len() + 1
            &&& post.taken().last() == m
            &&& post.taken().drop_last() == pre.taken()
        },
{
    if res is Ok {
        assert(post.taken().drop_last() =~= pre.taken());
    }
}

/// After a deadlock was rolled back, the context holds nothing: what it held is free,
/// and no other mutex has changed. If there was room, it goes on under a context that
/// did not exist before, of the same class and not ended; no context has gone away.
pub proof fn law_roll_back_frees_and_renews<'a>(
    pre: ExecContext<'a>,
    locks: Locks,
    room: Result<(), Error>,
    post: ExecContext<'a>,
    post_locks: Locks,
    i: int,
    other: int,
)
    requires
        pre.wf(locks),
        pre.cleaned_up(locks, room, post, post_locks),
        0 <= other < locks.words.len(),
    ensures
        post.taken().len() == 0,
        post.class_id() == pre.class_id(),
        0 <= i < pre.taken().len() ==> post_locks.words[pre.taken()[i]].holder is None,
        locks.words[other].holder != Some(Holder::Ctx(pre.ctx_id())) ==> post_locks.words[other]
            == locks.words[other],
        room is Err ==> post.ctx_id() == pre.ctx_id() && post_locks.ctxs == locks.ctxs,
        room is Ok ==> {
            &&& post.ctx_id() != pre.ctx_id()
            &&& post.ctx_id() == locks.ctxs.len()
            &&& post_locks.ctxs.len() == locks.ctxs.len() + 1
            &&& post_locks.ctxs[post.ctx_id() as int].class == pre.class_id()
            &&& !post_locks.ctxs[post.ctx_id() as int].done
            &&& forall|c: int|
                0 <= c < locks.ctxs.len() ==> #[trigger] post_locks.ctxs[c] == locks.ctxs[c]
        },
{
    if 0 <= i < pre.taken().len() {
        assert(pre.taken().contains(pre.taken()[i]));
    }
    if pre.taken().contains(other) {
        let k = choose|k: int| 0 <= k < pre.taken().len() && pre.taken()[k] == other;
        assert(locks.words[pre.taken()[k]].holder == Some(Holder::Ctx(pre.ctx_id())));
    }
}

/// Passes are only repeated after deadlocks, and each of them starts with nothing held.
pub proof fn law_passes_start_afresh<'a>(
    starts: Seq<(ExecContext<'a>, LockTable)>,
    stops: Seq<(ExecContext<'a>, LockTable)>,
    errors: Seq<Error>,
    i: int,
)
    requires
        rolled_back(starts, stops, errors),
        0 <= i < stops.len(),
    ensures
        starts.len() == stops.len() + 1,
        errors.len() == stops.len(),
        errors[i].code() == -35,
        starts[i + 1].0.taken().len() == 0,
        starts[i + 1].0.wf(starts[i + 1].1@),
        starts[i + 1].0.class_id() == stops[i].0.class_id(),
        starts[i + 1].0.ctx_id() == stops[i].1@.ctxs.len(),
{
    assert(stops[i].0.cleaned_up(stops[i].1@, Ok(()), starts[i + 1].0, starts[i + 1].1@));
}

/// The mutexes that guards hold are listed one for one, in their order.
pub proof fn law_guards_are_listed(guards: Seq<MutexGuard>, i: int)
    requires
        0 <= i < guards.len(),
    ensures
        mutexes_of(guards).len() == guards.len(),
        mutexes_of(guards)[i] == guards[i].mutex(),
{
}

/// A locking algorithm is given a context of the class that it started with, and finds
/// every mutex that was there, in its class.
pub proof fn law_passes_find_their_mutexes<'a>(
    now: ExecContext<'a>,
    locks: Locks,
    first: ExecContext<'a>,
    first_locks: Locks,
    m: int,
)
    requires
        now.succeeds(locks, first, first_locks),
        0 <= m < first_locks.words.len(),
    ensures
        now.class_id() == first.class_id(),
        m < locks.words.len(),
        locks.words[m].class == first_locks.words[m].class,
{
}

/// What locking under an execution context comes to: a mutex of another class is
/// refused; a free one is taken and listed, unless the acquire context has ended or
/// there is no room to list it; one that the context has already is refused; and any
/// other that is held is waited for. Only a mutex that was taken changes, and it is the
/// last that is listed.
pub proof fn law_call_of_lock<'a, T>(mutex: Mutex<T>, room: Result<(), Error>)
    ensures
        forall|ctx: &mut ExecContext<'a>, t: &mut LockTable, res: Progress<()>|
            ctx.wf(t@) && mutex.stands_in(t@) && #[trigger] call_ensures(
                ExecContext::<'a>::lock::<T>,
                (ctx, t, &mutex, room),
                res,
            ) ==> {
                let word = t@.words[mutex.id()];
                let ended = t@.ctxs[ctx.ctx_id() as int].done;
                let taken = word.class == ctx.class_id() && word.holder is None && !ended
                    && room is Ok;
                &&& (res matches Progress::Done(Ok(_))) <==> taken
                &&& !taken ==> final(t)@ == t@ && final(ctx).taken() == ctx.taken()
                &&& taken ==> {
                    &&& final(t)@.words[mutex.id()].holder == Some(Holder::Ctx(ctx.ctx_id()))
                    &&& final(ctx).taken() == ctx.taken().push(mutex.id())
                    &&& forall|m: int|
                        0 <= m < t@.words.len() && m != mutex.id() ==> #[trigger] final(t)@.words[m]
                            == t@.words[m]
                }
                &&& word.class != ctx.class_id() ==> (res matches Progress::Done(Err(e)) && e.code()
                    == -22)
                &&& word.class == ctx.class_id() && word.holder == Some(Holder::Ctx(ctx.ctx_id()))
                    ==> (res matches Progress::Done(Err(e)) && e.code() == -114)
                &&& word.class == ctx.class_id() && word.holder is Some && word.holder != Some(
                    Holder::Ctx(ctx.ctx_id()),
                ) && !ended ==> res is Wait
                &&& word.class == ctx.class_id() && ended && word.holder != Some(
                    Holder::Ctx(ctx.ctx_id()),
                ) ==> (res matches Progress::Done(Err(e)) && e.code() == -22)
                &&& word.class == ctx.class_id() && word.holder is None && !ended ==> (
                room matches Err(e) ==> (res matches Progress::Done(Err(f)) && f == e))
                &&& final(ctx).class_id() == ctx.class_id()
                &&& final(ctx).ctx_id() == ctx.ctx_id()
            },
{
    assert forall|ctx: &mut ExecContext<'a>, t: &mut LockTable, res: Progress<()>|
        ctx.wf(t@) && mutex.stands_in(t@) && #[trigger] call_ensures(
            ExecContext::<'a>::lock::<T>,
            (ctx, t, &mutex, room),
            res,
        ) && (res matches Progress::Done(Ok(_))) implies t@.words[mutex.id()].class
        == ctx.class_id() && t@.words[mutex.id()].holder is None && !t@.ctxs[ctx.ctx_id() as int].done
        && room is Ok by {}
}

/// What the reply of the lock primitive comes to under an execution context.
pub proof fn law_call_of_lock_replied<'a, T>(mutex: Mutex<T>, ret: i32, room: Result<(), Error>)
    ensures
        forall|ctx: &mut ExecContext<'a>, t: &mut LockTable, res: Result<(), Error>|
            ctx.wf(t@) && mutex.stands_in(t@) && #[trigger] call_ensures(
                ExecContext::<'a>::lock_replied::<T>,
                (ctx, t, &mutex, ret, room),
                res,
            ) ==> {
                let stranger = t@.words[mutex.id()].class != ctx.class_id();
                &&& res is Ok <==> !stranger && ret >= 0 && room is Ok
                &&& res is Err ==> final(t)@ == t@ && final(ctx).taken() == ctx.taken()
                &&& stranger ==> (res matches Err(e) && e.code() == -22)
                &&& !stranger && -4095 <= ret < 0 ==> (res matches Err(e) && e.code() == ret)
                &&& !stranger && ret < -4095 ==> (res matches Err(e) && e.code() == -22)
                &&& !stranger && ret >= 0 ==> (room matches Err(e) ==> (res matches Err(f) && f
                    == e))
                &&& res is Ok ==> {
                    &&& final(t)@.words[mutex.id()].holder == Some(Holder::Ctx(ctx.ctx_id()))
                    &&& final(ctx).taken() == ctx.taken().push(mutex.id())
                    &&& forall|m: int|
                        0 <= m < t@.words.len() && m != mutex.id() ==> #[trigger] final(t)@.words[m]
                            == t@.words[m]
                }
            },
{
}

/// Releasing all locks leaves the context with none, frees what it held, and changes no
/// other mutex; making the context starts with none, and cleaning up after a deadlock
/// does both, under a fresh acquire context if there is room.
pub proof fn law_calls_that_let_go<'a>()
    ensures
        forall|t: &mut LockTable, class: &'a Class, room: Result<(), Error>, res: Result<
            ExecContext<'a>,
            Error,
        >| #[trigger]
            call_ensures(ExecContext::<'a>::new, (t, class, room), res) ==> {
                &&& room matches Err(e) ==> (res matches Err(f) && f == e) && final(t)@ == t@
                &&& room is Ok ==> (res matches Ok(ctx) && {
                    &&& ctx.taken().len() == 0
                    &&& ctx.class_id() == class.id()
                    &&& ctx.ctx_id() == t@.ctxs.len()
                    &&& !final(t)@.ctxs[ctx.ctx_id() as int].done
                    &&& final(t)@.ctxs[ctx.ctx_id() as int].class == class.id()
                    &&& final(t)@.words == t@.words
                })
            },
        forall|ctx: &mut ExecContext<'a>, t: &mut LockTable, res: ()|
            ctx.wf(t@) && #[trigger] call_ensures(
                ExecContext::<'a>::release_all_locks,
                (ctx, t),
                res,
            ) ==> {
                &&& final(ctx).taken().len() == 0
                &&& final(ctx).ctx_id() == ctx.ctx_id() && final(ctx).class_id() == ctx.class_id()
                &&& final(t)@.ctxs == t@.ctxs
                &&& final(t)@.words.len() == t@.words.len()
                &&& forall|i: int|
                    0 <= i < ctx.taken().len() ==> final(t)@.words[#[trigger] ctx.taken()[i]].holder
                        is None
                &&& forall|m: int|
                    0 <= m < t@.words.len() && !ctx.taken().contains(m)
                        ==> #[trigger] final(t)@.words[m] == t@.words[m]
            },
        forall|ctx: &mut ExecContext<'a>, t: &mut LockTable, room: Result<(), Error>, res: Result<
            (),
            Error,
        >|
            ctx.wf(t@) && #[trigger] call_ensures(
                ExecContext::<'a>::cleanup_on_deadlock,
                (ctx, t, room),
                res,
            ) ==> {
                &&& room is Ok <==> res is Ok
                &&& room matches Err(e) ==> (res matches Err(f) && f == e)
                &&& final(ctx).taken().len() == 0
                &&& final(ctx).class_id() == ctx.class_id()
                &&& room is Ok ==> final(ctx).ctx_id() == t@.ctxs.len() && !final(t)@.ctxs[t@.ctxs.len() as int].done
                &&& room is Err ==> final(ctx).ctx_id() == ctx.ctx_id()
                &&& forall|i: int|
                    0 <= i < ctx.taken().len() ==> final(t)@.words[#[trigger] ctx.taken()[i]].holder
                        is None
                &&& forall|m: int|
                    0 <= m < t@.words.len() && !ctx.taken().contains(m)
                        ==> #[trigger] final(t)@.words[m] == t@.words[m]
            },
{
    assert forall|taken: Seq<int>, i: int| 0 <= i < taken.len() implies taken.contains(
        #[trigger] taken[i],
    ) by {}
}

/// The data behind a mutex can be worked on exactly if the context holds the mutex:
/// the work is then done on that data and its result handed on. Otherwise the answer is
/// `EINVAL`, and nothing has changed.
pub proof fn law_call_of_with_locked<'a, T, Y, F: FnOnce(&mut T) -> Y>(ctx: ExecContext<'a>, f: F)
    ensures
        forall|mutex: &mut Mutex<T>, res: Result<Y, Error>| #[trigger]
            call_ensures(ExecContext::<'a>::with_locked::<T, Y, F>, (&ctx, mutex, f), res) ==> {
                &&& res is Ok <==> exists|i: int|
                    0 <= i < ctx.taken().len() && #[trigger] ctx.taken()[i] == mutex.id()
                &&& res matches Err(e) ==> e.code() == -22 && *final(mutex) == *mutex
                &&& res matches Ok(y) ==> exists|v: &mut T|
                    *v == mutex.data() && *final(v) == final(mutex).data()
                        && #[trigger] call_ensures(f, (v,), y)
                &&& final(mutex).id() == mutex.id()
            },
{
}

/// What going through a locking algorithm comes to: without a pass nothing is done.
/// Another pass is only asked for if the algorithm has reported a deadlock, and nothing
/// is held then. Where there is a value, the work on the locked data has come to it, and
/// everything was let go after that. Where there is an error, the algorithm, the work or
/// the allocation has come to it.
pub proof fn law_call_of_lock_all<'a, T, Y, A, Z>(passes: u64, algorithm: T, work: Y, allocate: A) where
    T: Fn(&mut ExecContext<'a>, &mut LockTable) -> Result<(), Error>,
    Y: FnOnce(&mut ExecContext<'a>, &mut LockTable) -> Result<Z, Error>,
    A: Fn() -> Result<(), Error>,

    ensures
        forall|ctx: &mut ExecContext<'a>, t: &mut LockTable, res: Pass<Z>| #[trigger]
            call_ensures(
                ExecContext::<'a>::lock_all::<T, Y, A, Z>,
                (ctx, t, passes, algorithm, work, allocate),
                res,
            ) && passes == 0 ==> res is Retry && *final(ctx) == *ctx && *final(t) == *t,
        forall|ctx: &mut ExecContext<'a>, t: &mut LockTable, res: Pass<Z>| #[trigger]
            call_ensures(
                ExecContext::<'a>::lock_all::<T, Y, A, Z>,
                (ctx, t, passes, algorithm, work, allocate),
                res,
            ) && passes > 0 && res is Retry ==> final(ctx).taken().len() == 0 && exists|
                c: &mut ExecContext<'a>,
                u: &mut LockTable,
                e: Error,
            | #[trigger]
                call_ensures(algorithm, (c, u), Err(e)) && e.code() == -35,
        forall|ctx: &mut ExecContext<'a>, t: &mut LockTable, res: Pass<Z>| #[trigger]
            call_ensures(
                ExecContext::<'a>::lock_all::<T, Y, A, Z>,
                (ctx, t, passes, algorithm, work, allocate),
                res,
            ) && (res matches Pass::Done(Ok(_))) ==> final(ctx).taken().len() == 0 && exists|
                d: &mut ExecContext<'a>,
                u: &mut LockTable,
            | #[trigger]
                call_ensures(work, (d, u), res->Done_0),
        forall|ctx: &mut ExecContext<'a>, t: &mut LockTable, res: Pass<Z>| #[trigger]
            call_ensures(
                ExecContext::<'a>::lock_all::<T, Y, A, Z>,
                (ctx, t, passes, algorithm, work, allocate),
                res,
            ) && (res matches Pass::Done(Err(_))) ==> {
                ||| call_ensures(allocate, (), Err(res->Done_0->Err_0))
                ||| exists|c: &mut ExecContext<'a>, u: &mut LockTable| #[trigger]
                    call_ensures(algorithm, (c, u), Err(res->Done_0->Err_0))
                ||| exists|d: &mut ExecContext<'a>, u: &mut LockTable| #[trigger]
                    call_ensures(work, (d, u), res->Done_0)
            },
{
    assert forall|ctx: &mut ExecContext<'a>, t: &mut LockTable, res: Pass<Z>| #[trigger]
        call_ensures(
            ExecContext::<'a>::lock_all::<T, Y, A, Z>,
            (ctx, t, passes, algorithm, work, allocate),
            res,
        ) && passes > 0 && res is Retry implies final(ctx).taken().len() == 0 && exists|
        c: &mut ExecContext<'a>,
        u: &mut LockTable,
        e: Error,
    | #[trigger] call_ensures(algorithm, (c, u), Err(e)) && e.code() == -35 by {
        let (starts, stops, errors) = choose|
            starts: Seq<(ExecContext<'a>, LockTable)>,
            stops: Seq<(ExecContext<'a>, LockTable)>,
            errors: Seq<Error>,
        |
            #[trigger] rolled_back(starts, stops, errors) && starts[0] == (*ctx, *t) && stops.len()
                == passes && starts.last() == (*final(ctx), *final(t)) && forall|i: int|
                0 <= i < stops.len() && (#[trigger] errors[i]).code() == EDEADLK ==> exists|
                    c: &mut ExecContext<'a>,
                    u: &mut LockTable,
                | #[trigger]
                    call_ensures(algorithm, (c, u), Err(errors[i]));
        law_passes_start_afresh(starts, stops, errors, stops.len() - 1);
        assert(errors[stops.len() - 1].code() == EDEADLK);
    }
    assert forall|ctx: &mut ExecContext<'a>, t: &mut LockTable, res: Pass<Z>| #[trigger]
        call_ensures(
            ExecContext::<'a>::lock_all::<T, Y, A, Z>,
            (ctx, t, passes, algorithm, work, allocate),
            res,
        ) && passes == 0 implies res is Retry && *final(ctx) == *ctx && *final(t) == *t by {
        let (starts, stops, errors) = choose|
            starts: Seq<(ExecContext<'a>, LockTable)>,
            stops: Seq<(ExecContext<'a>, LockTable)>,
            errors: Seq<Error>,
        |
            #[trigger] rolled_back(starts, stops, errors) && starts[0] == (*ctx, *t) && stops.len()
                == 0 && res is Retry && starts.last() == (*final(ctx), *final(t));
        assert(starts.last() == starts[0]);
    }
    assert forall|ctx: &mut ExecContext<'a>, t: &mut LockTable, res: Pass<Z>| #[trigger]
        call_ensures(
            ExecContext::<'a>::lock_all::<T, Y, A, Z>,
            (ctx, t, passes, algorithm, work, allocate),
            res,
        ) && (res matches Pass::Done(Ok(_))) implies final(ctx).taken().len() == 0 && exists|
        d: &mut ExecContext<'a>,
        u: &mut LockTable,
    | #[trigger] call_ensures(work, (d, u), res->Done_0) by {}
}

} // verus!
