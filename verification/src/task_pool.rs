//! A pool of threads for tasks: when a thread is started, when a task waits, when one is dropped.
//!
//! The pool counts its threads; the threads themselves are run by whoever holds the pool. A thread
//! takes tasks until there is none left, and then waits for one.
use vstd::prelude::*;

verus! {

/// How many threads are kept even if there is nothing to do.
pub const MIN_THREADS: usize = 4;

/// A pool of threads. A new thread is started when all threads are busy; an idle one ends after
/// a while.
#[derive(Debug)]
pub struct TaskPool<T> {
    todo: Vec<T>,
    active: usize,
    waiting: usize,
    max_threads: Option<usize>,
    max_queue: Option<usize>,
    closed: bool,
}

#[verifier::ext_equal]
pub struct TaskPoolView<T> {
    /// The tasks that wait for a thread, the first in front.
    pub todo: Seq<T>,
    /// The threads there are, those that wait for a task included.
    pub active: usize,
    /// Threads that wait for a task.
    pub waiting: usize,
    /// The most threads there may be, where there is a limit.
    pub max_threads: Option<usize>,
    /// The most tasks that may wait, where there is a limit.
    pub max_queue: Option<usize>,
    /// Whether no more tasks are to come.
    pub closed: bool,
}

impl<T> View for TaskPool<T> {
    type V = TaskPoolView<T>;

    closed spec fn view(&self) -> TaskPoolView<T> {
        TaskPoolView {
            todo: self.todo@,
            active: self.active,
            waiting: self.waiting,
            max_threads: self.max_threads,
            max_queue: self.max_queue,
            closed: self.closed,
        }
    }
}

/// What became of a task.
#[derive(Debug, PartialEq)]
pub enum Spawned<T> {
    /// A new thread is to be started for it.
    Start(T),
    /// It waits for a thread; one of the waiting threads is to be woken.
    Queued,
    /// There may be no more threads, and the queue is full.
    Dropped(T),
}

/// How long an idle thread waits.
#[derive(Debug, Clone, Copy, PartialEq, Eq, Structural)]
pub enum Patience {
    Forever,
    /// Five seconds.
    AWhile,
}

/// The limits of a pool hold: there are no more threads and no more waiting tasks than there may
/// be, and the threads that wait are among those there are.
pub open spec fn within_limits<T>(p: TaskPoolView<T>) -> bool {
    &&& p.max_threads matches Some(max) ==> p.active <= max
    &&& p.max_queue matches Some(max) ==> p.todo.len() <= max
    &&& p.waiting <= p.active
}

/// Whether there are as many threads as there may be.
pub open spec fn at_cap<T>(p: TaskPoolView<T>) -> bool {
    p.max_threads matches Some(max) && p.active >= max
}

/// Whether as many tasks wait as may wait.
pub open spec fn queue_full<T>(p: TaskPoolView<T>) -> bool {
    p.max_queue matches Some(max) && p.todo.len() >= max
}

/// How many threads a pool starts with.
pub open spec fn initial_threads(max_threads: Option<usize>) -> usize {
    match max_threads {
        Some(max) => if max < MIN_THREADS {
            max
        } else {
            MIN_THREADS
        },
        None => MIN_THREADS,
    }
}

/// A pool with its first threads, of which none waits yet.
pub open spec fn fresh<T>(max_threads: Option<usize>, max_queue: Option<usize>) -> TaskPoolView<T> {
    TaskPoolView {
        todo: seq![],
        active: initial_threads(max_threads),
        waiting: 0,
        max_threads,
        max_queue,
        closed: false,
    }
}

/// What becomes of a task: below the limit of threads it gets a thread of its own if no thread
/// waits or no more tasks may wait; at the limit it is dropped if no more tasks may wait; otherwise
/// it waits.
pub open spec fn fate<T>(p: TaskPoolView<T>, task: T) -> Spawned<T> {
    if at_cap(p) && queue_full(p) {
        Spawned::Dropped(task)
    } else if !at_cap(p) && (p.waiting == 0 || queue_full(p)) {
        Spawned::Start(task)
    } else {
        Spawned::Queued
    }
}

/// What taking a task does to a pool.
pub open spec fn after_spawn<T>(p: TaskPoolView<T>, task: T) -> TaskPoolView<T> {
    match fate(p, task) {
        Spawned::Dropped(_) => p,
        Spawned::Start(_) => TaskPoolView { active: (p.active + 1) as usize, ..p },
        Spawned::Queued => TaskPoolView { todo: p.todo.push(task), ..p },
    }
}

/// What handing out the first task does to a pool.
pub open spec fn after_take<T>(p: TaskPoolView<T>) -> TaskPoolView<T> {
    if p.todo.len() == 0 {
        p
    } else {
        TaskPoolView { todo: p.todo.skip(1), ..p }
    }
}

/// What a thread that begins to wait does to a pool.
pub open spec fn after_begin_wait<T>(p: TaskPoolView<T>) -> TaskPoolView<T> {
    TaskPoolView { waiting: (p.waiting + 1) as usize, ..p }
}

/// Whether a thread that has stopped waiting ends.
pub open spec fn leaves<T>(p: TaskPoolView<T>, timed_out: bool) -> bool {
    timed_out && p.todo.len() == 0
}

/// What a thread that stops waiting does to a pool.
pub open spec fn after_end_wait<T>(p: TaskPoolView<T>, timed_out: bool) -> TaskPoolView<T> {
    TaskPoolView {
        waiting: (p.waiting - 1) as usize,
        active: if leaves(p, timed_out) {
            (p.active - 1) as usize
        } else {
            p.active
        },
        ..p
    }
}

impl<T> TaskPool<T> {
    #[verifier::type_invariant]
    spec fn limits_hold(self) -> bool {
        within_limits(self@)
    }

    /// A pool without limits, and how many threads are to be started with it.
    pub fn new() -> (r: (TaskPool<T>, usize))
        ensures
            r.0@ == fresh::<T>(None, None),
            within_limits(r.0@),
            r.1 == MIN_THREADS,
            r.1 == r.0@.active,
    {
        Self::new_with_limits(None, None)
    }

    /// A pool with limits on its threads and on its queue, and how many threads are to be started
    /// with it. They count towards the limit.
    pub fn new_with_limits(max_threads: Option<usize>, max_queue: Option<usize>) -> (r: (
        TaskPool<T>,
        usize,
    ))
        ensures
            r.0@ == fresh::<T>(max_threads, max_queue),
            within_limits(r.0@),
            r.1 == initial_threads(max_threads),
            r.1 == r.0@.active,
    {
        let initial: usize = match max_threads {
            Some(max) => if max < MIN_THREADS {
                max
            } else {
                MIN_THREADS
            },
            None => MIN_THREADS,
        };
        let pool = TaskPool {
            todo: Vec::new(),
            active: initial,
            waiting: 0,
            max_threads,
            max_queue,
            closed: false,
        };
        assert(pool@.todo =~= seq![]);
        (pool, initial)
    }

    /// Takes a task. If no thread waits for it, or no more tasks may wait, a thread is started for
    /// it as long as there may be one more; it is dropped if there may not and no more tasks may
    /// wait; otherwise it waits.
    pub fn spawn(&mut self, task: T) -> (r: Spawned<T>)
        requires
            old(self)@.max_threads is None ==> old(self)@.active < usize::MAX,
        ensures
            final(self)@ == after_spawn(old(self)@, task),
            within_limits(final(self)@),
            r == fate(old(self)@, task),
    {
        proof {
            use_type_invariant(&*self);
        }
        let capped = match self.max_threads {
            Some(max) => self.active >= max,
            None => false,
        };
        let full = match self.max_queue {
            Some(max) => self.todo.len() >= max,
            None => false,
        };
        if capped && full {
            Spawned::Dropped(task)
        } else if !capped && (self.waiting == 0 || full) {
            self.active = self.active + 1;
            Spawned::Start(task)
        } else {
            let mut todo: Vec<T> = Vec::new();
            std::mem::swap(&mut todo, &mut self.todo);
            todo.push(task);
            self.todo = todo;
            Spawned::Queued
        }
    }

    /// The first task that waits.
    pub fn take(&mut self) -> (r: Option<T>)
        ensures
            r == (if old(self)@.todo.len() == 0 {
                None
            } else {
                Some(old(self)@.todo[0])
            }),
            final(self)@ == after_take(old(self)@),
            within_limits(final(self)@),
    {
        proof {
            use_type_invariant(&*self);
        }
        if self.todo.len() == 0 {
            None
        } else {
            let ghost before = self@;
            let mut todo: Vec<T> = Vec::new();
            std::mem::swap(&mut todo, &mut self.todo);
            let task = todo.remove(0);
            assert(todo@ =~= before.todo.skip(1));
            self.todo = todo;
            Some(task)
        }
    }

    /// One of the threads that do not wait found no task and waits for one. With few threads it
    /// waits without end, unless the pool is closed.
    pub fn begin_wait(&mut self) -> (r: Patience)
        requires
            old(self)@.waiting < old(self)@.active,
        ensures
            r == if old(self)@.active <= MIN_THREADS && !old(self)@.closed {
                Patience::Forever
            } else {
                Patience::AWhile
            },
            final(self)@ == after_begin_wait(old(self)@),
            within_limits(final(self)@),
    {
        proof {
            use_type_invariant(&*self);
        }
        self.waiting = self.waiting + 1;
        if self.active <= MIN_THREADS && !self.closed {
            Patience::Forever
        } else {
            Patience::AWhile
        }
    }

    /// One of the threads that wait has stopped waiting. Tells whether it is to end: it does if its
    /// time was over and there is still no task.
    pub fn end_wait(&mut self, timed_out: bool) -> (leave: bool)
        requires
            old(self)@.waiting > 0,
        ensures
            leave == leaves(old(self)@, timed_out),
            final(self)@ == after_end_wait(old(self)@, timed_out),
            within_limits(final(self)@),
    {
        proof {
            use_type_invariant(&*self);
        }
        self.waiting = self.waiting - 1;
        if timed_out && self.todo.len() == 0 {
            self.active = self.active - 1;
            true
        } else {
            false
        }
    }

    /// How many threads there are.
    pub fn active(&self) -> (r: usize)
        ensures
            r == self@.active,
            within_limits(self@),
    {
        proof {
            use_type_invariant(self);
        }
        self.active
    }

    /// Closes the pool: threads that wait from now on end after a while. All are to be woken.
    pub fn close(&mut self)
        ensures
            final(self)@ == (TaskPoolView { closed: true, ..old(self)@ }),
            within_limits(final(self)@),
    {
        proof {
            use_type_invariant(&*self);
        }
        self.closed = true;
    }
}

// ── Laws ──

/// The limits hold of a new pool, and whatever is done with a pool keeps them: there are never more
/// threads than there may be, the first ones included, and never more waiting tasks.
pub proof fn law_limits_hold<T>(
    p: TaskPoolView<T>,
    task: T,
    timed_out: bool,
    max_threads: Option<usize>,
    max_queue: Option<usize>,
)
    requires
        within_limits(p),
        p.max_threads is None ==> p.active < usize::MAX,
    ensures
        within_limits(fresh::<T>(max_threads, max_queue)),
        within_limits(after_spawn(p, task)),
        within_limits(after_take(p)),
        p.waiting < p.active ==> within_limits(after_begin_wait(p)),
        p.waiting > 0 ==> within_limits(after_end_wait(p, timed_out)),
        within_limits(TaskPoolView { closed: true, ..p }),
        after_spawn(p, task).max_threads == p.max_threads,
        after_spawn(p, task).max_queue == p.max_queue,
{
}

/// A task is dropped only at the limit of threads and with a full queue.
pub proof fn law_task_is_kept_below_the_limits<T>(p: TaskPoolView<T>, task: T)
    requires
        !at_cap(p) || !queue_full(p),
    ensures
        fate(p, task) == Spawned::Start(task) || (fate(p, task) == Spawned::<T>::Queued
            && after_spawn(p, task).todo == p.todo.push(task)),
{
}

/// A task is dropped exactly if no thread may be added and no task may wait any more. A thread is
/// started for it where one may be added and none waits, or no task may wait; else it waits behind
/// those that wait already.
pub proof fn law_fate_of_a_task<T>(p: TaskPoolView<T>, task: T)
    ensures
        ({
            let no_thread = p.max_threads matches Some(max) && p.active >= max;
            let no_place = p.max_queue matches Some(max) && p.todo.len() >= max;
            let after = after_spawn(p, task);
            &&& fate(p, task) is Dropped <==> no_thread && no_place
            &&& fate(p, task) is Start <==> !no_thread && (p.waiting == 0 || no_place)
            &&& fate(p, task) is Dropped ==> after == p
            &&& fate(p, task) is Start && p.active < usize::MAX ==> after.active == p.active + 1
                && after.todo == p.todo
            &&& fate(p, task) is Queued ==> after.active == p.active && after.todo == p.todo.push(
                task,
            )
            &&& after.waiting == p.waiting
        }),
{
}

/// Tasks that wait are taken in the order in which they came.
pub proof fn law_tasks_are_taken_in_order<T>(p: TaskPoolView<T>, task: T)
    requires
        fate(p, task) is Queued,
    ensures
        ({
            let queued = after_spawn(p, task);
            &&& queued.todo.len() == p.todo.len() + 1
            &&& queued.todo.last() == task
            &&& p.todo.len() > 0 ==> queued.todo[0] == p.todo[0] && after_take(queued).todo
                == p.todo.skip(1).push(task)
            &&& p.todo.len() == 0 ==> queued.todo[0] == task && after_take(queued).todo.len() == 0
        }),
{
    let queued = after_spawn(p, task);
    if p.todo.len() > 0 {
        assert(queued.todo.skip(1) =~= p.todo.skip(1).push(task));
    }
}

/// A thread that waited leaves exactly if its time was up and no task waits for it.
pub proof fn law_idle_threads_leave<T>(p: TaskPoolView<T>, timed_out: bool)
    requires
        0 < p.waiting <= p.active,
    ensures
        after_end_wait(p, timed_out).waiting == p.waiting - 1,
        after_end_wait(p, timed_out).active == (if timed_out && p.todo.len() == 0 {
            p.active - 1
        } else {
            p.active as int
        }),
        after_end_wait(p, timed_out).todo == p.todo,
{
}

} // verus!
