//! Wound-wait locking primitives.
//!
//! They are designed to avoid deadlocks when locking multiple [`Mutex`]es
//! that belong to the same [`Class`]. Each lock acquisition uses an
//! [`AcquireCtx`] to track ordering and ensure forward progress.
//!
//! The lock words of all mutexes stand in a [`LockTable`]. A mutex that is held
//! has to be waited for: what the wait comes to is for the caller to say, by
//! trying again once the mutex is free or by handing the reply of the lock
//! primitive to [`lock_common`].

pub mod acquire_ctx;
pub mod class;
pub mod exec;
pub mod laws;

use crate::error::{self, to_result, Error, EALREADY, EBUSY, EINVAL};
use vstd::prelude::*;

pub use acquire_ctx::AcquireCtx;
pub use class::{Class, WwClass};
pub use exec::ExecContext;

verus! {

/// Who holds a mutex.
#[derive(Clone, Copy, Debug, PartialEq, Eq, Structural)]
pub enum Holder {
    /// It was locked without an acquire context.
    Plain,
    /// It was locked under the acquire context with this number.
    Ctx(usize),
}

/// The lock word of one mutex.
#[derive(Clone, Copy, Debug, PartialEq, Eq, Structural)]
pub struct LockWord {
    /// The number of the class that the mutex belongs to.
    pub class: usize,
    /// Who holds the mutex, if anyone does.
    pub holder: Option<Holder>,
}

/// What is known of one acquire context.
#[derive(Clone, Copy, Debug, PartialEq, Eq, Structural)]
pub struct CtxRecord {
    /// The number of the class whose mutexes the context may lock.
    pub class: usize,
    /// Whether the acquire phase has ended.
    pub done: bool,
}

/// The contents of a [`LockTable`].
#[verifier::ext_equal]
pub struct Locks {
    /// The classes, by number.
    pub classes: Seq<WwClass>,
    /// The lock words of the mutexes, by number.
    pub words: Seq<LockWord>,
    /// The acquire contexts, by number.
    pub ctxs: Seq<CtxRecord>,
}

impl Locks {
    /// Every mutex and every context belongs to a known class, and a mutex that
    /// is held under a context belongs to that context's class.
    pub open spec fn wf(self) -> bool {
        &&& forall|m: int|
            0 <= m < self.words.len() ==> (#[trigger] self.words[m]).class < self.classes.len()
        &&& forall|c: int|
            0 <= c < self.ctxs.len() ==> (#[trigger] self.ctxs[c]).class < self.classes.len()
        &&& forall|m: int|
            0 <= m < self.words.len() ==> ((#[trigger] self.words[m]).holder matches Some(
                Holder::Ctx(c),
            ) ==> c < self.ctxs.len() && self.ctxs[c as int].class == self.words[m].class)
    }

    /// Whether mutex `m` is held.
    pub open spec fn locked(self, m: int) -> bool {
        self.words[m].holder is Some
    }

    /// Who holds a mutex that was locked under `ctx`.
    pub open spec fn holder_under(ctx: Option<usize>) -> Holder {
        match ctx {
            None => Holder::Plain,
            Some(c) => Holder::Ctx(c),
        }
    }

    /// Whether `ctx` may lock mutex `m`: a context only locks mutexes of its
    /// own class.
    pub open spec fn same_class(self, m: int, ctx: Option<usize>) -> bool {
        ctx matches Some(c) ==> self.ctxs[c as int].class == self.words[m].class
    }

    /// The table after mutex `m` was handed to `holder`.
    pub open spec fn granted(self, m: int, holder: Holder) -> Self {
        Locks {
            words: self.words.update(
                m,
                LockWord { class: self.words[m].class, holder: Some(holder) },
            ),
            ..self
        }
    }

    /// The table after mutex `m` was let go.
    pub open spec fn unlocked(self, m: int) -> Self {
        Locks {
            words: self.words.update(m, LockWord { class: self.words[m].class, holder: None }),
            ..self
        }
    }

    /// The table after all of `mutexes` were let go.
    pub open spec fn released(self, mutexes: Seq<int>) -> Self {
        Locks {
            words: Seq::new(
                self.words.len(),
                |m: int|
                    if mutexes.contains(m) {
                        LockWord { class: self.words[m].class, holder: None }
                    } else {
                        self.words[m]
                    },
            ),
            ..self
        }
    }
}

/// The lock words of all mutexes, with the classes and acquire contexts that
/// they refer to.
pub struct LockTable {
    classes: Vec<WwClass>,
    words: Vec<LockWord>,
    ctxs: Vec<CtxRecord>,
}

impl View for LockTable {
    type V = Locks;

    closed spec fn view(&self) -> Locks {
        Locks { classes: self.classes@, words: self.words@, ctxs: self.ctxs@ }
    }
}

impl LockTable {
    /// A table without classes, mutexes and contexts.
    pub fn new() -> (res: Self)
        ensures
            res@.wf(),
            res@.classes.len() == 0,
            res@.words.len() == 0,
            res@.ctxs.len() == 0,
    {
        LockTable { classes: Vec::new(), words: Vec::new(), ctxs: Vec::new() }
    }

    fn add_class(&mut self, class: WwClass) -> (id: usize)
        ensures
            id == old(self)@.classes.len(),
            final(self)@ == (Locks { classes: old(self)@.classes.push(class), ..old(self)@ }),
    {
        let id: usize = self.classes.len();
        self.classes.push(class);
        id
    }

    fn add_mutex(&mut self, class: usize) -> (id: usize)
        ensures
            id == old(self)@.words.len(),
            final(self)@ == (Locks {
                words: old(self)@.words.push(LockWord { class, holder: None }),
                ..old(self)@
            }),
    {
        let id: usize = self.words.len();
        self.words.push(LockWord { class, holder: None });
        id
    }

    fn add_ctx(&mut self, class: usize) -> (id: usize)
        ensures
            id == old(self)@.ctxs.len(),
            final(self)@ == (Locks {
                ctxs: old(self)@.ctxs.push(CtxRecord { class, done: false }),
                ..old(self)@
            }),
    {
        let id: usize = self.ctxs.len();
        self.ctxs.push(CtxRecord { class, done: false });
        id
    }

    fn class(&self, id: usize) -> (res: WwClass)
        requires
            id < self@.classes.len(),
        ensures
            res == self@.classes[id as int],
    {
        self.classes[id]
    }

    fn word(&self, id: usize) -> (res: LockWord)
        requires
            id < self@.words.len(),
        ensures
            res == self@.words[id as int],
    {
        self.words[id]
    }

    fn ctx(&self, id: usize) -> (res: CtxRecord)
        requires
            id < self@.ctxs.len(),
        ensures
            res == self@.ctxs[id as int],
    {
        self.ctxs[id]
    }

    fn finish_ctx(&mut self, id: usize)
        requires
            id < old(self)@.ctxs.len(),
        ensures
            final(self)@ == (Locks {
                ctxs: old(self)@.ctxs.update(
                    id as int,
                    CtxRecord { class: old(self)@.ctxs[id as int].class, done: true },
                ),
                ..old(self)@
            }),
    {
        let class: usize = self.ctxs[id].class;
        self.ctxs[id] = CtxRecord { class, done: true };
    }

    fn set_holder(&mut self, id: usize, holder: Option<Holder>)
        requires
            id < old(self)@.words.len(),
        ensures
            final(self)@ == (Locks {
                words: old(self)@.words.update(
                    id as int,
                    LockWord { class: old(self)@.words[id as int].class, holder },
                ),
                ..old(self)@
            }),
    {
        let class: usize = self.words[id].class;
        self.words[id] = LockWord { class, holder };
    }
}

/// Locking kinds used by [`lock_common`] to unify the internal
/// locking logic.
#[derive(Clone, Copy, Debug, PartialEq, Eq, Structural)]
pub enum LockKind {
    /// Blocks until lock is acquired.
    Regular,
    /// Blocks but can be interrupted by signals.
    Interruptible,
    /// Used in slow path after deadlock detection.
    Slow,
    /// Slow path but interruptible.
    SlowInterruptible,
    /// Does not block, returns immediately if busy.
    Try,
}

/// The error that reply `ret` of the lock primitive for `kind` stands for, if
/// it does not stand for success.
pub open spec fn refusal(kind: LockKind, ret: int) -> Option<int> {
    match kind {
        LockKind::Slow => None,
        LockKind::Try => if ret == 0 {
            Some(EBUSY as int)
        } else if ret < 0 {
            Some(error::errno_or_einval(ret))
        } else {
            None
        },
        _ => if ret < 0 {
            Some(error::errno_or_einval(ret))
        } else {
            None
        },
    }
}

/// What the lock primitive for `kind` replies at once when mutex `m` is to be
/// locked under `ctx`; none where it would wait for the holder.
///
/// A free mutex is handed out, unless the context's acquire phase has ended. A
/// held mutex is refused to the context that holds it, and to an attempt that
/// does not wait.
pub open spec fn prompt_reply(
    locks: Locks,
    m: int,
    ctx: Option<usize>,
    kind: LockKind,
) -> Option<int> {
    let ended = ctx matches Some(c) && locks.ctxs[c as int].done;
    match locks.words[m].holder {
        None => if kind is Slow {
            Some(0)
        } else if ended {
            Some(EINVAL as int)
        } else if kind is Try {
            Some(1)
        } else {
            Some(0)
        },
        Some(holder) => if kind is Try {
            Some(0)
        } else if kind is Slow {
            None
        } else if ctx is Some && holder == Locks::holder_under(ctx) {
            Some(EALREADY as int)
        } else if ended {
            Some(EINVAL as int)
        } else {
            None
        },
    }
}

/// How far an attempt to lock a mutex has come.
pub enum Progress<G> {
    /// It has ended.
    Done(Result<G, Error>),
    /// The mutex is held, and has to be waited for.
    Wait,
}

/// What an attempt to lock mutex `m` under `ctx` comes to, and what it does to
/// the table.
pub open spec fn attempted(
    pre: Locks,
    m: int,
    ctx: Option<usize>,
    kind: LockKind,
    post: Locks,
    res: Progress<MutexGuard>,
) -> bool {
    if !pre.same_class(m, ctx) {
        &&& post == pre
        &&& res matches Progress::Done(Err(e)) && e.code() == EINVAL
    } else {
        match prompt_reply(pre, m, ctx, kind) {
            None => post == pre && res is Wait,
            Some(ret) => match refusal(kind, ret) {
                Some(code) => {
                    &&& post == pre
                    &&& res matches Progress::Done(Err(e)) && e.code() == code
                },
                None => {
                    &&& post == pre.granted(m, Locks::holder_under(ctx))
                    &&& res matches Progress::Done(Ok(guard)) && guard.mutex() == m
                },
            },
        }
    }
}

/// A wound-wait (ww) mutex that is powered with deadlock avoidance
/// when acquiring multiple locks of the same [`Class`].
///
/// Each mutex belongs to a [`Class`], which the wound-wait algorithm
/// uses to figure out the order of acquisition and prevent deadlocks.
pub struct Mutex<T> {
    id: usize,
    data: T,
}

impl<T> Mutex<T> {
    /// The number of the mutex, by which its lock word is found.
    pub closed spec fn id(self) -> int {
        self.id as int
    }

    /// The protected data.
    pub closed spec fn data(self) -> T {
        self.data
    }

    /// Whether the lock word of this mutex stands in `locks`.
    pub open spec fn stands_in(self, locks: Locks) -> bool {
        0 <= self.id() < locks.words.len()
    }

    /// A free mutex with the given `data` and [`Class`].
    pub fn new(locks: &mut LockTable, data: T, class: &Class) -> (res: Self)
        ensures
            res.id() == old(locks)@.words.len(),
            res.data() == data,
            final(locks)@ == (Locks {
                words: old(locks)@.words.push(
                    LockWord { class: class.id(), holder: None },
                ),
                ..old(locks)@
            }),
            old(locks)@.wf() && class.stands_in(old(locks)@) ==> final(locks)@.wf(),
    {
        let id: usize = locks.add_mutex(class.number());
        Mutex { id, data }
    }

    /// The number of the mutex.
    pub fn number(&self) -> (res: usize)
        ensures
            res == self.id(),
    {
        self.id
    }

    /// Checks if this [`Mutex`] is currently locked.
    pub fn is_locked(&self, locks: &LockTable) -> (res: bool)
        requires
            self.stands_in(locks@),
        ensures
            res == locks@.locked(self.id()),
    {
        locks.word(self.id).holder.is_some()
    }

    /// Locks this [`Mutex`] without [`AcquireCtx`].
    pub fn lock(&self, locks: &mut LockTable) -> (res: Progress<MutexGuard>)
        requires
            old(locks)@.wf(),
            self.stands_in(old(locks)@),
        ensures
            final(locks)@.wf(),
            attempted(old(locks)@, self.id(), None, LockKind::Regular, final(locks)@, res),
    {
        attempt(locks, self, None, LockKind::Regular)
    }

    /// Similar to [`Self::lock`], but can be interrupted by signals.
    pub fn lock_interruptible(&self, locks: &mut LockTable) -> (res: Progress<MutexGuard>)
        requires
            old(locks)@.wf(),
            self.stands_in(old(locks)@),
        ensures
            final(locks)@.wf(),
            attempted(old(locks)@, self.id(), None, LockKind::Interruptible, final(locks)@, res),
    {
        attempt(locks, self, None, LockKind::Interruptible)
    }

    /// Locks this [`Mutex`] without [`AcquireCtx`] using the slow path.
    ///
    /// This function should be used when [`Self::lock`] fails (typically due
    /// to a potential deadlock).
    pub fn lock_slow(&self, locks: &mut LockTable) -> (res: Progress<MutexGuard>)
        requires
            old(locks)@.wf(),
            self.stands_in(old(locks)@),
        ensures
            final(locks)@.wf(),
            attempted(old(locks)@, self.id(), None, LockKind::Slow, final(locks)@, res),
    {
        attempt(locks, self, None, LockKind::Slow)
    }

    /// Similar to [`Self::lock_slow`], but can be interrupted by signals.
    pub fn lock_slow_interruptible(&self, locks: &mut LockTable) -> (res: Progress<MutexGuard>)
        requires
            old(locks)@.wf(),
            self.stands_in(old(locks)@),
        ensures
            final(locks)@.wf(),
            attempted(
                old(locks)@,
                self.id(),
                None,
                LockKind::SlowInterruptible,
                final(locks)@,
                res,
            ),
    {
        attempt(locks, self, None, LockKind::SlowInterruptible)
    }

    /// Tries to lock this [`Mutex`] with no [`AcquireCtx`] and without blocking.
    ///
    /// Unlike [`Self::lock`], no deadlock handling is performed.
    pub fn try_lock(&self, locks: &mut LockTable) -> (res: Result<MutexGuard, Error>)
        requires
            old(locks)@.wf(),
            self.stands_in(old(locks)@),
        ensures
            final(locks)@.wf(),
            attempted(
                old(locks)@,
                self.id(),
                None,
                LockKind::Try,
                final(locks)@,
                Progress::Done(res),
            ),
    {
        match attempt(locks, self, None, LockKind::Try) {
            Progress::Done(res) => res,
            Progress::Wait => Err(Error::from_errno(EBUSY)),
        }
    }
}

impl Mutex<()> {
    /// The mutex with number `id`, without its data.
    pub fn from_raw(locks: &LockTable, id: usize) -> (res: Self)
        requires
            id < locks@.words.len(),
        ensures
            res.id() == id,
    {
        Mutex { id, data: () }
    }
}

/// A guard that provides exclusive access to the data protected
/// by a [`Mutex`].
///
/// The guard stands for an exclusive lock on the associated [`Mutex`]. It is
/// given up with [`MutexGuard::unlock`].
#[must_use]
pub struct MutexGuard {
    mutex: usize,
}

impl MutexGuard {
    /// The number of the mutex that is held.
    pub closed spec fn mutex(self) -> int {
        self.mutex as int
    }

    /// Creates a new guard for the given [`Mutex`], which is locked.
    fn new(locks: &LockTable, mutex: usize) -> (res: Self)
        requires
            mutex < locks@.words.len(),
            locks@.locked(mutex as int),
        ensures
            res.mutex() == mutex,
    {
        MutexGuard { mutex }
    }

    /// Creates a [`MutexGuard`] for the mutex with number `id`.
    ///
    /// If that mutex is not locked, returns `EINVAL`.
    pub fn from_raw(locks: &LockTable, id: usize) -> (res: Result<Self, Error>)
        requires
            id < locks@.words.len(),
        ensures
            res is Ok <==> locks@.locked(id as int),
            res matches Ok(guard) ==> guard.mutex() == id,
            res matches Err(e) ==> e.code() == EINVAL,
    {
        let mutex = Mutex::<()>::from_raw(locks, id);
        if !mutex.is_locked(locks) {
            return Err(Error::from_errno(EINVAL));
        }
        Ok(MutexGuard::new(locks, id))
    }

    /// The number of the mutex that is held.
    pub fn number(&self) -> (res: usize)
        ensures
            res == self.mutex(),
    {
        self.mutex
    }

    /// The protected data.
    pub fn deref<'a, T>(&self, mutex: &'a Mutex<T>) -> (res: &'a T)
        requires
            self.mutex() == mutex.id(),
        ensures
            *res == mutex.data(),
    {
        &mutex.data
    }

    /// The protected data, to change it.
    pub fn deref_mut<'a, T>(&self, mutex: &'a mut Mutex<T>) -> (res: &'a mut T)
        requires
            self.mutex() == old(mutex).id(),
        ensures
            *res == old(mutex).data(),
            final(mutex).id() == old(mutex).id(),
            final(mutex).data() == *final(res),
    {
        &mut mutex.data
    }

    /// Gives the guard up and lets the mutex go.
    pub fn unlock(self, locks: &mut LockTable)
        requires
            old(locks)@.wf(),
            self.mutex() < old(locks)@.words.len(),
            old(locks)@.locked(self.mutex()),
        ensures
            final(locks)@.wf(),
            final(locks)@ == old(locks)@.unlocked(self.mutex()),
    {
        locks.set_holder(self.mutex, None);
    }
}

/// Reads reply `ret` of the lock primitive for `kind`.
fn read_reply(kind: LockKind, ret: i32) -> (res: Result<(), Error>)
    ensures
        res is Ok <==> refusal(kind, ret as int) is None,
        res matches Err(e) ==> Some(e.code()) == refusal(kind, ret as int),
{
    match kind {
        LockKind::Regular => to_result(ret),
        LockKind::Interruptible => to_result(ret),
        LockKind::Slow => Ok(()),
        LockKind::SlowInterruptible => to_result(ret),
        LockKind::Try => if ret == 0 {
            Err(Error::from_errno(EBUSY))
        } else {
            to_result(ret)
        },
    }
}

/// Internal helper that unifies the different locking kinds. It is given
/// `ret`, which the lock primitive for `kind` replied.
///
/// Returns `EINVAL` if the [`Mutex`] has a different [`Class`]; the primitive
/// is not to be asked then, and `ret` does not matter. A reply that stands for
/// success hands the mutex out, which is only done with a free mutex.
pub fn lock_common<T>(
    locks: &mut LockTable,
    mutex: &Mutex<T>,
    ctx: Option<&AcquireCtx>,
    kind: LockKind,
    ret: i32,
) -> (res: Result<MutexGuard, Error>)
    requires
        old(locks)@.wf(),
        mutex.stands_in(old(locks)@),
        ctx matches Some(c) ==> c.stands_in(old(locks)@),
        old(locks)@.same_class(mutex.id(), acquire_ctx::number_of(ctx)) && refusal(
            kind,
            ret as int,
        ) is None ==> !old(locks)@.locked(mutex.id()),
    ensures
        final(locks)@.wf(),
        if !old(locks)@.same_class(mutex.id(), acquire_ctx::number_of(ctx)) {
            &&& final(locks)@ == old(locks)@
            &&& res matches Err(e) && e.code() == EINVAL
        } else {
            match refusal(kind, ret as int) {
                Some(code) => {
                    &&& final(locks)@ == old(locks)@
                    &&& res matches Err(e) && e.code() == code
                },
                None => {
                    &&& final(locks)@ == old(locks)@.granted(
                        mutex.id(),
                        Locks::holder_under(acquire_ctx::number_of(ctx)),
                    )
                    &&& res matches Ok(guard) && guard.mutex() == mutex.id()
                },
            }
        },
{
    let holder = match ctx {
        Some(acquire_ctx) => {
            let ctx_class: usize = locks.ctx(acquire_ctx.number()).class;
            let mutex_class: usize = locks.word(mutex.id).class;
            // The context and the mutex must use the same class.
            if ctx_class != mutex_class {
                return Err(Error::from_errno(EINVAL));
            }
            Holder::Ctx(acquire_ctx.number())
        },
        None => Holder::Plain,
    };
    if let Err(e) = read_reply(kind, ret) {
        return Err(e);
    }
    locks.set_holder(mutex.id, Some(holder));
    Ok(MutexGuard::new(locks, mutex.id))
}

/// What the lock primitive for `kind` replies at once; none where it waits.
fn reply_at_once(locks: &LockTable, mutex: usize, ctx: Option<&AcquireCtx>, kind: LockKind) -> (res:
    Option<i32>)
    requires
        mutex < locks@.words.len(),
        ctx matches Some(c) ==> c.stands_in(locks@),
    ensures
        match prompt_reply(locks@, mutex as int, acquire_ctx::number_of(ctx), kind) {
            None => res is None,
            Some(ret) => res matches Some(r) && r == ret,
        },
{
    let ended = match ctx {
        Some(c) => locks.ctx(c.number()).done,
        None => false,
    };
    match locks.word(mutex).holder {
        None => match kind {
            LockKind::Slow => Some(0),
            LockKind::Try => if ended {
                Some(EINVAL)
            } else {
                Some(1)
            },
            _ => if ended {
                Some(EINVAL)
            } else {
                Some(0)
            },
        },
        Some(holder) => match kind {
            LockKind::Slow => None,
            LockKind::Try => Some(0),
            _ => {
                let own = match ctx {
                    Some(c) => holder == Holder::Ctx(c.number()),
                    None => false,
                };
                if own {
                    Some(EALREADY)
                } else if ended {
                    Some(EINVAL)
                } else {
                    None
                }
            },
        },
    }
}

/// Attempts to lock a mutex as far as that can be done without waiting.
fn attempt<T>(locks: &mut LockTable, mutex: &Mutex<T>, ctx: Option<&AcquireCtx>, kind: LockKind) -> (res:
    Progress<MutexGuard>)
    requires
        old(locks)@.wf(),
        mutex.stands_in(old(locks)@),
        ctx matches Some(c) ==> c.stands_in(old(locks)@),
    ensures
        final(locks)@.wf(),
        attempted(
            old(locks)@,
            mutex.id(),
            acquire_ctx::number_of(ctx),
            kind,
            final(locks)@,
            res,
        ),
{
    match reply_at_once(locks, mutex.id, ctx, kind) {
        Some(ret) => Progress::Done(lock_common(locks, mutex, ctx, kind, ret)),
        None => {
            if let Some(c) = ctx {
                if locks.ctx(c.number()).class != locks.word(mutex.id).class {
                    return Progress::Done(Err(Error::from_errno(EINVAL)));
                }
            }
            Progress::Wait
        },
    }
}

impl Locks {
    /// Letting a mutex go undoes having locked it.
    pub proof fn law_unlock_undoes_lock(self, m: int, holder: Holder)
        requires
            0 <= m < self.words.len(),
            !self.locked(m),
        ensures
            self.granted(m, holder).locked(m),
            self.granted(m, holder).unlocked(m) == self,
    {
        assert(self.granted(m, holder).unlocked(m).words =~= self.words);
    }
}

/// A mutex that is held is handed to nobody else: whatever the context and the
/// kind of attempt, nothing changes and no guard is made.
pub proof fn law_held_mutex_is_exclusive(
    pre: Locks,
    m: int,
    ctx: Option<usize>,
    kind: LockKind,
    post: Locks,
    res: Progress<MutexGuard>,
)
    requires
        pre.locked(m),
        attempted(pre, m, ctx, kind, post, res),
    ensures
        post == pre,
        !(res matches Progress::Done(Ok(_))),
        kind is Try ==> res is Done,
{
}

/// A free mutex is handed out at once to whoever may lock it, and only its own
/// lock word changes.
pub proof fn law_free_mutex_is_granted(
    pre: Locks,
    m: int,
    ctx: Option<usize>,
    kind: LockKind,
    post: Locks,
    res: Progress<MutexGuard>,
    other: int,
)
    requires
        0 <= m < pre.words.len(),
        !pre.locked(m),
        pre.same_class(m, ctx),
        ctx matches Some(c) ==> !pre.ctxs[c as int].done,
        attempted(pre, m, ctx, kind, post, res),
        0 <= other < pre.words.len(),
        other != m,
    ensures
        res matches Progress::Done(Ok(guard)) && guard.mutex() == m,
        post.locked(m),
        post.words[m].holder == Some(Locks::holder_under(ctx)),
        post.words[other] == pre.words[other],
{
}

/// Once its acquire phase has ended, a context gets no mutex any more, but on
/// the slow path.
pub proof fn law_ended_context_locks_nothing(
    pre: Locks,
    m: int,
    c: usize,
    kind: LockKind,
    post: Locks,
    res: Progress<MutexGuard>,
)
    requires
        pre.ctxs[c as int].done,
        !(kind is Slow),
        attempted(pre, m, Some(c), kind, post, res),
    ensures
        post == pre,
        res matches Progress::Done(Err(_)),
{
}

/// A context never locks a mutex of another class.
pub proof fn law_classes_are_kept_apart(
    pre: Locks,
    m: int,
    c: usize,
    kind: LockKind,
    post: Locks,
    res: Progress<MutexGuard>,
)
    requires
        pre.ctxs[c as int].class != pre.words[m].class,
        attempted(pre, m, Some(c), kind, post, res),
    ensures
        post == pre,
        res matches Progress::Done(Err(e)) && e.code() == EINVAL,
{
}

} // verus!
