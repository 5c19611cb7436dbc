//! A minimal single-threaded task executor, modelled as an explicit state
//! machine.
//!
//! A [`Spawner`] wraps a computation into a [`Task`] and enqueues it on a
//! bounded FIFO [`TaskQueue`].  The [`Executor`] dequeues task identifiers and
//! drives each task forward by one poll step.  A computation that is not yet
//! finished captures the [`Waker`] it was polled with; invoking that waker
//! re-enqueues the task, and nothing else ever causes a task to be polled
//! again.  A computation that reports [`Poll::Ready`] leaves its slot
//! permanently empty.
//!
//! Polling a computation can never re-enter the queue directly: a poll step
//! only stores the waker it was handed.  Wake-ups therefore arrive between
//! steps — from the driver loop that also runs timers or other completion
//! sources — so a wake call is nothing more than the task's identity
//! travelling over the same queue the executor consumes.

use vstd::prelude::*;

verus! {

/// Identifier of a task within one executor: its index in the task table.
pub type TaskId = usize;

/// Outcome of one poll step of a computation.
#[derive(Clone, Copy, Debug, PartialEq, Eq, Structural)]
pub enum Poll {
    /// The computation finished; it must never be polled again.
    Ready,
    /// The computation must be driven again after its waker is invoked.
    Pending,
}

/// The error returned when the bounded task queue is at capacity.
#[derive(Clone, Copy, Debug, PartialEq, Eq, Structural)]
pub struct QueueFull;

/// A capability that reschedules exactly one task.
///
/// Invoking it (through [`Executor::wake_by_ref`]) enqueues the associated
/// task; it never runs the computation itself.  Cloning is cheap and yields
/// an equivalent capability.
#[derive(Clone, Copy, Debug)]
pub struct Waker {
    task: TaskId,
}

impl Waker {
    /// The task this waker reschedules.
    pub closed spec fn id(&self) -> TaskId {
        self.task
    }

    /// The task this waker reschedules.
    pub fn task_id(&self) -> (id: TaskId)
        ensures
            id == self.id(),
    {
        self.task
    }
}

/// An asynchronous unit of work, progressed one step at a time.
///
/// Implementers supply their own internal state machine.  Each poll step
/// either completes or captures the waker it was handed, to be invoked when
/// the computation can make progress again.
pub trait Computation: Sized {
    /// Whether the computation has delivered its final result.
    spec fn done(&self) -> bool;

    /// The waker captured by the latest poll and not yet handed back.
    spec fn captured(&self) -> Option<Waker>;

    /// How one poll step may transform the computation: from `pre`, polled
    /// with `waker`, to `post` with outcome `p`.  Each implementation pins
    /// this down to its own exact behaviour, and `poll` promises it, so the
    /// executor's step contract carries the polled computation's identity
    /// through to the slot it puts back or the value it hands out.
    spec fn poll_rel(pre: Self, waker: Waker, p: Poll, post: Self) -> bool;

    /// How delivering the external completion signal may transform the
    /// computation: from `pre` to `post`, handing back `w`.
    spec fn notify_rel(pre: Self, w: Option<Waker>, post: Self) -> bool;

    /// Drives the computation one step with a fresh waker.
    ///
    /// Reports [`Poll::Ready`] exactly when the computation is now finished;
    /// a finished computation stays finished; a pending one has captured
    /// exactly the waker it was handed.
    fn poll(&mut self, waker: Waker) -> (p: Poll)
        ensures
            Self::poll_rel(*old(self), waker, p, *final(self)),
            p is Ready <==> final(self).done(),
            old(self).done() ==> final(self).done(),
            p is Pending ==> final(self).captured() == Some(waker),
    ;

    /// Delivers the external completion signal (for example a timer expiry)
    /// and hands back the waker captured by the latest poll, if any — taken
    /// out, so it is invoked at most once.
    ///
    /// The caller is expected to invoke the returned waker; the computation
    /// itself has no access to the queue.
    fn notify(&mut self) -> (w: Option<Waker>)
        ensures
            Self::notify_rel(*old(self), w, *final(self)),
            old(self).done() ==> final(self).done(),
            w == old(self).captured(),
            final(self).captured() is None,
    ;
}

/// An ordered, bounded queue of task identifiers.
///
/// Delivery order matches enqueue order (FIFO); enqueueing beyond the fixed
/// capacity is refused.
pub struct TaskQueue {
    items: Vec<TaskId>,
    capacity: usize,
}

/// How one enqueue operation relates the queue before and after it.
pub open spec fn enqueue_transition(
    pre: Seq<TaskId>,
    cap: nat,
    id: TaskId,
    r: Result<(), QueueFull>,
    post: Seq<TaskId>,
) -> bool {
    if pre.len() < cap {
        r is Ok && post == pre.push(id)
    } else {
        r is Err && post == pre
    }
}

/// How one dequeue operation relates the queue before and after it.
pub open spec fn dequeue_transition(
    pre: Seq<TaskId>,
    r: Option<TaskId>,
    post: Seq<TaskId>,
) -> bool {
    if pre.len() == 0 {
        r is None && post == pre
    } else {
        r == Some(pre[0]) && post == pre.drop_first()
    }
}

impl TaskQueue {
    /// The identifiers currently queued, oldest first.
    pub closed spec fn view(&self) -> Seq<TaskId> {
        self.items@
    }

    /// The fixed capacity chosen at construction.
    pub closed spec fn cap(&self) -> nat {
        self.capacity as nat
    }

    /// An empty queue with the given capacity.
    pub fn new(capacity: usize) -> (q: TaskQueue)
        ensures
            q@ == Seq::<TaskId>::empty(),
            q.cap() == capacity,
    {
        TaskQueue { items: Vec::new(), capacity }
    }

    /// The number of identifiers currently queued.
    pub fn len(&self) -> (n: usize)
        ensures
            n == self@.len(),
    {
        self.items.len()
    }

    /// Appends `id` at the back, unless the queue is at capacity.
    pub fn enqueue(&mut self, id: TaskId) -> (r: Result<(), QueueFull>)
        ensures
            enqueue_transition(old(self)@, old(self).cap(), id, r, final(self)@),
            final(self).cap() == old(self).cap(),
    {
        if self.items.len() < self.capacity {
            self.items.push(id);
            Ok(())
        } else {
            Err(QueueFull)
        }
    }

    /// Removes and returns the oldest identifier, if any.
    pub fn dequeue(&mut self) -> (r: Option<TaskId>)
        ensures
            dequeue_transition(old(self)@, r, final(self)@),
            final(self).cap() == old(self).cap(),
    {
        if self.items.len() == 0 {
            None
        } else {
            Some(self.items.remove(0))
        }
    }
}

/// A task: a possibly-vacant slot holding a computation.  The executor takes
/// the computation out of the slot for the duration of a poll, so a vacant
/// slot means the task has completed (or is being polled right now).
pub struct Task<C> {
    slot: Option<C>,
}

/// How taking the computation out of a task relates the task before and
/// after it: the holder gets whatever was in the slot, and the slot is left
/// empty.
pub open spec fn take_transition<C>(pre: Task<C>, out: Option<C>, post: Task<C>) -> bool {
    out == pre.computation() && post.computation() is None
}

impl<C> Task<C> {
    /// The computation currently resting in the slot.
    pub closed spec fn computation(&self) -> Option<C> {
        self.slot
    }

    /// A task holding `c`.
    pub fn new(c: C) -> (t: Task<C>)
        ensures
            t.computation() == Some(c),
    {
        Task { slot: Some(c) }
    }

    /// Takes the computation out of the slot, leaving the slot empty.
    pub fn take(&mut self) -> (out: Option<C>)
        ensures
            take_transition(*old(self), out, *final(self)),
    {
        self.slot.take()
    }

    /// Puts a computation back into the slot.
    pub fn put(&mut self, c: C)
        ensures
            final(self).computation() == Some(c),
    {
        self.slot = Some(c);
    }
}

/// What one executor step observed.
#[derive(Debug)]
pub enum StepEvent<C> {
    /// The queue was empty; nothing changed.
    Idle,
    /// The dequeued task's slot was vacant (it had already completed), so the
    /// delivery was skipped.
    Skipped(TaskId),
    /// The task was polled and reported pending; its computation went back
    /// into the slot to wait for its waker.
    Yielded(TaskId),
    /// The task was polled and finished.  Its slot is left permanently empty
    /// and the finished computation is handed back to the driver, which
    /// releases it.
    Completed(TaskId, C),
}

/// The outcome of invoking a waker.
#[derive(Clone, Copy, Debug, PartialEq, Eq, Structural)]
pub enum WakeOutcome {
    /// The task was re-enqueued.
    Woken,
    /// The queue was at capacity; nothing changed.
    Full,
    /// The waker belongs to no task of this executor; nothing changed.
    Unknown,
}

/// The consumer side: owns the task table and the ready queue, and drives
/// tasks to completion.
pub struct Executor<C> {
    queue: TaskQueue,
    tasks: Vec<Task<C>>,
}

/// The producer-side handle used to submit new computations.  Spawners may
/// be cloned freely; each clone enqueues independently.
#[derive(Clone, Copy, Debug)]
pub struct Spawner;

/// Maximum number of tasks that may be queued at once; chosen only to give
/// the bounded queue a capacity, not a tuned value.
pub const MAX_QUEUED_TASKS: usize = 10_000;

/// Constructs a linked executor/spawner pair sharing one bounded queue.
pub fn new_executor_and_spawner<C: Computation>() -> (pair: (Executor<C>, Spawner))
    ensures
        pair.0.wf(),
        pair.0.queue_view() == Seq::<TaskId>::empty(),
        pair.0.task_count() == 0,
        pair.0.cap() == MAX_QUEUED_TASKS,
{
    (Executor { queue: TaskQueue::new(MAX_QUEUED_TASKS), tasks: Vec::new() }, Spawner)
}

impl Spawner {
    /// Wraps `c` into a task and enqueues it.
    ///
    /// Returns the new task's identifier, or [`QueueFull`] — with the
    /// executor unchanged — when the queue is at capacity.  Overflow is a
    /// fatal condition for the embedding program; the driver at the
    /// boundary is the place to abort on it.
    pub fn spawn<C: Computation>(&self, ex: &mut Executor<C>, c: C) -> (r: Result<
        TaskId,
        QueueFull,
    >)
        requires
            old(ex).wf(),
        ensures
            final(ex).wf(),
            spawn_transition(*old(ex), c, r, *final(ex)),
    {
        ex.spawn_inner(c)
    }
}

/// The executor states `pre` and `post` agree on everything the contracts
/// speak of: capacity, task table, every slot, and the queue.
pub open spec fn same_state<C: Computation>(pre: Executor<C>, post: Executor<C>) -> bool {
    &&& post.cap() == pre.cap()
    &&& post.task_count() == pre.task_count()
    &&& post.queue_view() == pre.queue_view()
    &&& forall|j: int| 0 <= j < pre.task_count() ==> post.slot_of(j) == pre.slot_of(j)
}

/// How one spawn relates the executor before and after it: below capacity,
/// a fresh task holding the computation is appended to the task table and
/// its identifier is enqueued; at capacity, the spawn is refused and nothing
/// changes.
pub open spec fn spawn_transition<C: Computation>(
    pre: Executor<C>,
    c: C,
    r: Result<TaskId, QueueFull>,
    post: Executor<C>,
) -> bool {
    post.cap() == pre.cap() && if pre.queue_view().len() < pre.cap() {
        &&& r == Ok::<TaskId, QueueFull>(pre.task_count() as usize)
        &&& post.task_count() == pre.task_count() + 1
        &&& post.slot_of(pre.task_count() as int) == Some(c)
        &&& forall|j: int| 0 <= j < pre.task_count() ==> post.slot_of(j) == pre.slot_of(j)
        &&& post.queue_view() == pre.queue_view().push(pre.task_count() as usize)
    } else {
        r is Err && same_state(pre, post)
    }
}

/// How one wake relates the executor before and after it: a waker of this
/// executor enqueues its task unless the queue is full; task slots never
/// change.
pub open spec fn wake_transition<C: Computation>(
    pre: Executor<C>,
    w: Waker,
    r: WakeOutcome,
    post: Executor<C>,
) -> bool {
    &&& post.cap() == pre.cap()
    &&& post.task_count() == pre.task_count()
    &&& forall|j: int| 0 <= j < pre.task_count() ==> post.slot_of(j) == pre.slot_of(j)
    &&& if w.id() as nat >= pre.task_count() {
        r == WakeOutcome::Unknown && post.queue_view() == pre.queue_view()
    } else if pre.queue_view().len() < pre.cap() {
        r == WakeOutcome::Woken && post.queue_view() == pre.queue_view().push(w.id())
    } else {
        r == WakeOutcome::Full && post.queue_view() == pre.queue_view()
    }
}

/// How one executor step relates the executor before and after it, together
/// with the event it reports.
pub open spec fn step_transition<C: Computation>(
    pre: Executor<C>,
    ev: StepEvent<C>,
    post: Executor<C>,
) -> bool {
    &&& post.cap() == pre.cap()
    &&& post.task_count() == pre.task_count()
    &&& if pre.queue_view().len() == 0 {
        ev is Idle && same_state(pre, post)
    } else {
        let id = pre.queue_view()[0];
        &&& post.queue_view() == pre.queue_view().drop_first()
        &&& forall|j: int|
            0 <= j < pre.task_count() && j != id as int ==> post.slot_of(j) == pre.slot_of(j)
        &&& match ev {
            StepEvent::Idle => false,
            StepEvent::Skipped(sid) => {
                &&& sid == id
                &&& pre.slot_of(id as int) is None
                &&& post.slot_of(id as int) is None
            },
            StepEvent::Yielded(sid) => {
                &&& sid == id
                &&& pre.slot_of(id as int) is Some
                &&& !(pre.slot_of(id as int)->0.done())
                &&& post.slot_of(id as int) is Some
                &&& !(post.slot_of(id as int)->0.done())
                &&& (post.slot_of(id as int)->0.captured() matches Some(cw) && cw.id() == id)
                &&& exists|w: Waker|
                    w.id() == id && #[trigger] C::poll_rel(
                        pre.slot_of(id as int)->0,
                        w,
                        Poll::Pending,
                        post.slot_of(id as int)->0,
                    )
            },
            StepEvent::Completed(sid, c) => {
                &&& sid == id
                &&& pre.slot_of(id as int) is Some
                &&& post.slot_of(id as int) is None
                &&& c.done()
                &&& exists|w: Waker|
                    w.id() == id && #[trigger] C::poll_rel(
                        pre.slot_of(id as int)->0,
                        w,
                        Poll::Ready,
                        c,
                    )
            },
        }
    }
}

impl<C: Computation> Executor<C> {
    /// Well-formedness: every queued identifier refers to a task in the
    /// table.  Constructors establish it and every method preserves it.
    pub closed spec fn wf(&self) -> bool {
        forall|i: int|
            0 <= i < self.queue@.len() ==> (self.queue@[i] as nat) < self.tasks@.len()
    }

    /// The identifiers currently queued, oldest first.
    pub closed spec fn queue_view(&self) -> Seq<TaskId> {
        self.queue@
    }

    /// The capacity of the task queue.
    pub closed spec fn cap(&self) -> nat {
        self.queue.cap()
    }

    /// How many tasks have ever been spawned on this executor.
    pub closed spec fn task_count(&self) -> nat {
        self.tasks@.len()
    }

    /// The computation resting in task `id`'s slot, if any.
    pub closed spec fn slot_of(&self, id: int) -> Option<C> {
        self.tasks@[id].computation()
    }

    /// The task table is a vector, so the number of tasks fits a `usize`.
    pub proof fn lemma_task_count_bounded(&self)
        ensures
            self.task_count() <= usize::MAX,
    {
        vstd::std_specs::vec::axiom_spec_len(&self.tasks);
    }

    /// The number of identifiers currently queued.
    pub fn queued(&self) -> (n: usize)
        ensures
            n == self.queue_view().len(),
    {
        self.queue.len()
    }

    fn spawn_inner(&mut self, c: C) -> (r: Result<TaskId, QueueFull>)
        requires
            old(self).wf(),
        ensures
            final(self).wf(),
            spawn_transition(*old(self), c, r, *final(self)),
    {
        let id = self.tasks.len();
        if self.queue.len() >= self.capacity_exec() {
            return Err(QueueFull);
        }
        self.tasks.push(Task::new(c));
        let res = self.queue.enqueue(id);
        assert(res is Ok);
        Ok(id)
    }

    fn capacity_exec(&self) -> (n: usize)
        ensures
            n == self.cap(),
    {
        self.queue.capacity
    }

    /// Invokes a waker: re-enqueues its task so that it will be polled again.
    ///
    /// Safe to call at any time, including after the task has completed — a
    /// completed task's delivery is later skipped.  A waker that belongs to
    /// no task of this executor is ignored.
    pub fn wake_by_ref(&mut self, w: &Waker) -> (r: WakeOutcome)
        requires
            old(self).wf(),
        ensures
            final(self).wf(),
            wake_transition(*old(self), *w, r, *final(self)),
    {
        if w.task >= self.tasks.len() {
            return WakeOutcome::Unknown;
        }
        match self.queue.enqueue(w.task) {
            Ok(()) => WakeOutcome::Woken,
            Err(QueueFull) => WakeOutcome::Full,
        }
    }

    /// Delivers the external completion signal to task `id`'s computation
    /// and hands back the waker it had captured, if any.  The caller then
    /// invokes the waker with [`Executor::wake_by_ref`]; this models an
    /// external completion source (such as a timer) reaching into the shared
    /// state and waking the task.
    ///
    /// A vacant slot — the task already completed — yields no waker and
    /// changes nothing.
    pub fn notify_task(&mut self, id: TaskId) -> (w: Option<Waker>)
        requires
            old(self).wf(),
            (id as nat) < old(self).task_count(),
        ensures
            final(self).wf(),
            final(self).cap() == old(self).cap(),
            final(self).task_count() == old(self).task_count(),
            final(self).queue_view() == old(self).queue_view(),
            forall|j: int|
                0 <= j < old(self).task_count() && j != id as int
                    ==> final(self).slot_of(j) == old(self).slot_of(j),
            old(self).slot_of(id as int) is None ==> final(self).slot_of(id as int) is None
                && w is None,
            old(self).slot_of(id as int) matches Some(c) ==> {
                &&& w == c.captured()
                &&& final(self).slot_of(id as int) matches Some(c2)
                &&& c2.captured() is None
                &&& C::notify_rel(c, w, c2)
                &&& (c.done() ==> c2.done())
            },
    {
        let task = &mut self.tasks[id];
        match task.take() {
            None => None,
            Some(mut c) => {
                let w = c.notify();
                task.put(c);
                w
            },
        }
    }

    /// One executor step: dequeue the oldest identifier and drive that task.
    ///
    /// A task is polled only when its identifier is at the front of the
    /// queue; its computation is taken out of the slot for the duration of
    /// the poll, put back when it yields, and left out — handed to the
    /// driver — when it completes.
    pub fn step(&mut self) -> (ev: StepEvent<C>)
        requires
            old(self).wf(),
        ensures
            final(self).wf(),
            step_transition(*old(self), ev, *final(self)),
    {
        let id = match self.queue.dequeue() {
            None => {
                return StepEvent::Idle;
            },
            Some(id) => id,
        };
        let task = &mut self.tasks[id];
        match task.take() {
            None => StepEvent::Skipped(id),
            Some(mut c) => {
                let ghost c0 = c;
                let waker = Waker { task: id };
                proof {
                    assert(waker.id() == id);
                }
                match c.poll(waker) {
                    Poll::Pending => {
                        proof {
                            assert(C::poll_rel(c0, waker, Poll::Pending, c));
                            assert(!c0.done());
                            assert(c.captured() == Some(waker));
                        }
                        task.put(c);
                        StepEvent::Yielded(id)
                    },
                    Poll::Ready => {
                        proof {
                            assert(C::poll_rel(c0, waker, Poll::Ready, c));
                        }
                        StepEvent::Completed(id, c)
                    },
                }
            },
        }
    }

    /// Runs the executor until the queue is drained.
    ///
    /// Each step strictly shortens the queue — a poll step cannot re-enqueue
    /// anything by itself — so the loop terminates.  Wake-ups delivered
    /// between runs (via [`Executor::notify_task`] and
    /// [`Executor::wake_by_ref`]) refill the queue.  Vacant slots stay
    /// vacant, and every queued task whose computation is already finished
    /// is driven to completion: its poll reports ready and its slot ends
    /// permanently empty, the computation released.
    ///
    /// What happened is a run of steps in the sense of [`run_of`], from the
    /// state the call found to the state it leaves, so every law stated
    /// over runs of steps applies to a call of `run`.
    pub fn run(&mut self)
        requires
            old(self).wf(),
        ensures
            final(self).wf(),
            final(self).cap() == old(self).cap(),
            final(self).task_count() == old(self).task_count(),
            final(self).queue_view().len() == 0,
            forall|j: int|
                0 <= j < old(self).task_count() && old(self).slot_of(j) is None
                    ==> final(self).slot_of(j) is None,
            forall|j: TaskId|
                #[trigger] queued_done(*old(self), j) ==> final(self).slot_of(j as int) is None,
            exists|states: Seq<Executor<C>>, events: Seq<StepEvent<C>>|
                {
                    &&& #[trigger] run_of(states, events)
                    &&& states[0] == *old(self)
                    &&& states.last() == *final(self)
                },
    {
        let ghost mut states: Seq<Executor<C>> = seq![*old(self)];
        let ghost mut events: Seq<StepEvent<C>> = seq![];
        loop
            invariant
                self.wf(),
                self.cap() == old(self).cap(),
                self.task_count() == old(self).task_count(),
                forall|j: int|
                    0 <= j < old(self).task_count() && old(self).slot_of(j) is None ==> self
                        .slot_of(j) is None,
                forall|j: TaskId|
                    #[trigger] queued_done(*old(self), j) ==> self.slot_of(j as int) is None || (
                    self.queue_view().contains(j) && self.slot_of(j as int) == old(self).slot_of(
                        j as int,
                    )),
                run_of(states, events),
                states[0] == *old(self),
                states.last() == *self,
            decreases self.queue_view().len(),
        {
            let ghost prev = *self;
            let ev = self.step();
            let ghost gev = ev;
            proof {
                let prev_states = states;
                let prev_events = events;
                states = states.push(*self);
                events = events.push(gev);
                assert forall|i: int|
                    0 <= i < events.len() implies step_transition(
                    states[i],
                    #[trigger] events[i],
                    states[i + 1],
                ) by {
                    if i < prev_events.len() {
                        assert(events[i] == prev_events[i]);
                        assert(states[i] == prev_states[i]);
                        assert(states[i + 1] == prev_states[i + 1]);
                    } else {
                        assert(states[i] == prev);
                        assert(events[i] == gev);
                        assert(states[i + 1] == *self);
                    }
                }
                if prev.queue_view().len() > 0 {
                    let id = prev.queue_view()[0];
                    assert forall|j: TaskId| #[trigger] queued_done(*old(self), j) implies self
                        .slot_of(j as int) is None || (self.queue_view().contains(j)
                        && self.slot_of(j as int) == old(self).slot_of(j as int)) by {
                        if prev.slot_of(j as int) is None {
                            // A vacant slot stays vacant: a step either skips
                            // it or leaves it untouched.
                            assert(self.slot_of(j as int) is None);
                        } else {
                            // The slot still holds the original, finished
                            // computation and j is still queued.
                            assert(prev.queue_view().contains(j));
                            assert(prev.slot_of(j as int) == old(self).slot_of(j as int));
                            if j == id {
                                // The front task's computation is finished, so
                                // the poll must report ready: the slot ends
                                // vacant.
                                assert(prev.slot_of(id as int)->0.done());
                                assert(!(gev matches StepEvent::Yielded(i) && i == id));
                                assert(!(gev matches StepEvent::Skipped(i) && i == id));
                                assert(self.slot_of(j as int) is None);
                            } else {
                                assert(self.slot_of(j as int) == prev.slot_of(j as int));
                                let k = choose|k: int|
                                    0 <= k < prev.queue_view().len() && prev.queue_view()[k] == j;
                                assert(k >= 1);
                                assert(self.queue_view() == prev.queue_view().drop_first());
                                assert(self.queue_view()[k - 1] == j);
                                assert(self.queue_view().contains(j));
                            }
                        }
                    }
                }
            }
            match ev {
                StepEvent::Idle => {
                    proof {
                        assert(same_state(prev, *self));
                        assert forall|j: TaskId| #[trigger] queued_done(*old(self), j) implies self
                            .slot_of(j as int) is None by {
                            assert(!self.queue_view().contains(j));
                        }
                        assert(run_of(states, events) && states[0] == *old(self) && states.last()
                            == *self);
                    }
                    return ;
                },
                _ => {
                    proof {
                        assert(prev.queue_view().len() > 0);
                    }
                },
            }
        }
    }
}

/// Whether task `j` is queued with a finished computation resting in its
/// slot — the state in which the next delivery of `j` must complete it.
pub open spec fn queued_done<C: Computation>(ex: Executor<C>, j: TaskId) -> bool {
    &&& ex.queue_view().contains(j)
    &&& (j as nat) < ex.task_count()
    &&& ex.slot_of(j as int) is Some
    &&& ex.slot_of(j as int)->0.done()
}

/// At most one holder of a task's computation at a time: taking the
/// computation leaves the slot empty, so of two successive takes the second
/// obtains nothing.  The executor takes a computation out for the whole
/// duration of a poll, so no second poll of the same task can begin while
/// one is in flight.
pub proof fn lemma_at_most_one_poll_in_flight<C>(
    t0: Task<C>,
    out1: Option<C>,
    t1: Task<C>,
    out2: Option<C>,
    t2: Task<C>,
)
    requires
        take_transition(t0, out1, t1),
        take_transition(t1, out2, t2),
        out1 is Some,
    ensures
        out2 is None,
{
}

/// Completion is final: a task whose slot is vacant — it has completed — is
/// never polled by a step.  A delivery of its identifier is skipped, its
/// slot stays vacant, every other slot is untouched, and the queue only
/// shrinks, so repeated wake-ups after completion are no-ops that cannot
/// grow the queue without bound.
pub proof fn lemma_completion_final<C: Computation>(
    pre: Executor<C>,
    ev: StepEvent<C>,
    post: Executor<C>,
    id: TaskId,
)
    requires
        step_transition(pre, ev, post),
        (id as nat) < pre.task_count(),
        pre.slot_of(id as int) is None,
    ensures
        post.slot_of(id as int) is None,
        !(ev matches StepEvent::Yielded(i) && i == id),
        !(ev matches StepEvent::Completed(i, _) && i == id),
        pre.queue_view().len() > 0 ==> post.queue_view().len() == pre.queue_view().len() - 1,
{
}

/// FIFO within a single producer, enqueue side: two enqueues with no
/// intervening dequeue append the two identifiers in submission order,
/// behind everything already queued.
pub proof fn lemma_fifo_single_producer(
    q0: Seq<TaskId>,
    cap: nat,
    a: TaskId,
    b: TaskId,
    q1: Seq<TaskId>,
    q2: Seq<TaskId>,
)
    requires
        enqueue_transition(q0, cap, a, Ok(()), q1),
        enqueue_transition(q1, cap, b, Ok(()), q2),
    ensures
        q2.len() == q0.len() + 2,
        q2[q0.len() as int] == a,
        q2[q0.len() as int + 1] == b,
        forall|i: int| 0 <= i < q0.len() ==> q2[i] == q0[i],
{
}

/// FIFO within a single producer, dequeue side: successive dequeues deliver
/// the queued identifiers in order, so the executor observes an earlier
/// submission before a later one.
pub proof fn lemma_dequeue_in_order(
    q0: Seq<TaskId>,
    r1: Option<TaskId>,
    q1: Seq<TaskId>,
    r2: Option<TaskId>,
    q2: Seq<TaskId>,
)
    requires
        q0.len() >= 2,
        dequeue_transition(q0, r1, q1),
        dequeue_transition(q1, r2, q2),
    ensures
        r1 == Some(q0[0]),
        r2 == Some(q0[1]),
{
}

/// No spurious wake-ups: a step polls only the task at the front of the
/// queue.  A task whose identifier is not queued is not polled, its slot is
/// untouched, and the step does not put its identifier into the queue
/// either — so a pending computation whose waker is never invoked is never
/// polled again.
pub proof fn lemma_no_spurious_poll<C: Computation>(
    pre: Executor<C>,
    ev: StepEvent<C>,
    post: Executor<C>,
    id: TaskId,
)
    requires
        step_transition(pre, ev, post),
        (id as nat) < pre.task_count(),
        !pre.queue_view().contains(id),
    ensures
        !(ev matches StepEvent::Skipped(i) && i == id),
        !(ev matches StepEvent::Yielded(i) && i == id),
        !(ev matches StepEvent::Completed(i, _) && i == id),
        post.slot_of(id as int) == pre.slot_of(id as int),
        !post.queue_view().contains(id),
{
    if pre.queue_view().len() > 0 {
        assert(pre.queue_view().contains(pre.queue_view()[0]));
        assert forall|i: int| 0 <= i < post.queue_view().len() implies post.queue_view()[i]
            != id by {
            assert(post.queue_view()[i] == pre.queue_view()[i + 1]);
            assert(pre.queue_view().contains(pre.queue_view()[i + 1]));
        }
        if post.queue_view().contains(id) {
            let i = choose|i: int| 0 <= i < post.queue_view().len() && post.queue_view()[i] == id;
        }
    }
}

/// A waker invoked exactly once causes exactly one re-poll: the wake puts
/// one occurrence of the task into the queue, and the step that delivers the
/// front occurrence of a task queued exactly once polls it and leaves the
/// queue without it — after which `lemma_no_spurious_poll` applies.
pub proof fn lemma_woken_polled_once<C: Computation>(
    pre: Executor<C>,
    ev: StepEvent<C>,
    post: Executor<C>,
)
    requires
        step_transition(pre, ev, post),
        pre.queue_view().len() > 0,
        pre.slot_of(pre.queue_view()[0] as int) is Some,
        !pre.queue_view().drop_first().contains(pre.queue_view()[0]),
    ensures
        (ev matches StepEvent::Yielded(i) && i == pre.queue_view()[0]) || (ev
            matches StepEvent::Completed(i, _) && i == pre.queue_view()[0]),
        !post.queue_view().contains(pre.queue_view()[0]),
{
}

/// Whether `events` and `states` form a run of the executor: each event
/// takes one state to the next by a step.
pub open spec fn run_of<C: Computation>(
    states: Seq<Executor<C>>,
    events: Seq<StepEvent<C>>,
) -> bool {
    &&& states.len() == events.len() + 1
    &&& forall|i: int|
        0 <= i < events.len() ==> step_transition(states[i], #[trigger] events[i], states[i + 1])
}

/// Whether an event polls task `id`.
pub open spec fn polls<C: Computation>(ev: StepEvent<C>, id: TaskId) -> bool {
    ||| ev matches StepEvent::Yielded(t) && t == id
    ||| (ev matches StepEvent::Completed(t, _) && t == id)
}

/// Completion is final, over any whole run of steps: a task whose slot is
/// vacant at the start is never polled by any step of the run, and its slot
/// is still vacant at the end.
pub proof fn lemma_completion_final_forever<C: Computation>(
    states: Seq<Executor<C>>,
    events: Seq<StepEvent<C>>,
    id: TaskId,
)
    requires
        run_of(states, events),
        (id as nat) < states[0].task_count(),
        states[0].slot_of(id as int) is None,
    ensures
        forall|i: int| 0 <= i < events.len() ==> !polls(events[i], id),
        states.last().slot_of(id as int) is None,
    decreases events.len(),
{
    if events.len() > 0 {
        lemma_completion_final(states[0], events[0], states[1], id);
        let tail_states = states.drop_first();
        let tail_events = events.drop_first();
        assert forall|i: int|
            0 <= i < tail_events.len() implies step_transition(
            tail_states[i],
            #[trigger] tail_events[i],
            tail_states[i + 1],
        ) by {
            assert(tail_events[i] == events[i + 1]);
            assert(tail_states[i] == states[i + 1]);
            assert(tail_states[i + 1] == states[i + 2]);
        }
        lemma_completion_final_forever(tail_states, tail_events, id);
        assert forall|i: int| 0 <= i < events.len() implies !polls(events[i], id) by {
            if i > 0 {
                assert(!polls(tail_events[i - 1], id));
            }
        }
        assert(states.last() == tail_states.last());
    }
}

/// No spurious wake-ups, over any whole run of steps: a task whose
/// identifier is not queued at the start is not polled by any step of the
/// run — only a wake, which arrives between runs, can lead to another poll.
pub proof fn lemma_never_polled_without_wake<C: Computation>(
    states: Seq<Executor<C>>,
    events: Seq<StepEvent<C>>,
    id: TaskId,
)
    requires
        run_of(states, events),
        (id as nat) < states[0].task_count(),
        !states[0].queue_view().contains(id),
    ensures
        forall|i: int| 0 <= i < events.len() ==> !polls(events[i], id),
        !states.last().queue_view().contains(id),
        states.last().task_count() == states[0].task_count(),
        states.last().slot_of(id as int) == states[0].slot_of(id as int),
    decreases events.len(),
{
    if events.len() > 0 {
        lemma_no_spurious_poll(states[0], events[0], states[1], id);
        let tail_states = states.drop_first();
        let tail_events = events.drop_first();
        assert forall|i: int|
            0 <= i < tail_events.len() implies step_transition(
            tail_states[i],
            #[trigger] tail_events[i],
            tail_states[i + 1],
        ) by {
            assert(tail_events[i] == events[i + 1]);
            assert(tail_states[i] == states[i + 1]);
            assert(tail_states[i + 1] == states[i + 2]);
        }
        lemma_never_polled_without_wake(tail_states, tail_events, id);
        assert forall|i: int| 0 <= i < events.len() implies !polls(events[i], id) by {
            if i > 0 {
                assert(!polls(tail_events[i - 1], id));
            }
        }
        assert(states.last() == tail_states.last());
    }
}

/// FIFO observed at the executor: spawn one computation and then another on
/// a drained executor, and the next two steps poll them in submission
/// order.
pub proof fn lemma_spawn_order_observed<C: Computation>(
    s0: Executor<C>,
    ca: C,
    a: TaskId,
    s1: Executor<C>,
    cb: C,
    b: TaskId,
    s2: Executor<C>,
    ev1: StepEvent<C>,
    s3: Executor<C>,
    ev2: StepEvent<C>,
    s4: Executor<C>,
)
    requires
        s0.queue_view().len() == 0,
        spawn_transition(s0, ca, Ok(a), s1),
        spawn_transition(s1, cb, Ok(b), s2),
        step_transition(s2, ev1, s3),
        step_transition(s3, ev2, s4),
    ensures
        polls(ev1, a),
        polls(ev2, b),
{
    s0.lemma_task_count_bounded();
    s1.lemma_task_count_bounded();
    assert(a as nat == s0.task_count());
    assert(b as nat == s1.task_count());
    assert(s1.slot_of(a as int) == Some(ca));
    assert(s2.slot_of(a as int) == Some(ca));
    assert(s2.slot_of(b as int) == Some(cb));
    assert(s2.queue_view() =~= seq![a, b]);
    assert(s2.queue_view()[0] == a);
    assert(s3.queue_view() =~= seq![b]);
    assert(s3.slot_of(b as int) == Some(cb));
    assert(s3.queue_view()[0] == b);
}

/// A wake after completion is a no-op: on a drained executor, waking a task
/// whose slot is vacant enqueues its identifier once, and the delivery of
/// that identifier is skipped — the executor ends exactly where it started,
/// so repeated wakes cannot grow the queue without bound.
pub proof fn lemma_wake_after_completion_noop<C: Computation>(
    s0: Executor<C>,
    w: Waker,
    s1: Executor<C>,
    ev: StepEvent<C>,
    s2: Executor<C>,
)
    requires
        s0.queue_view().len() == 0,
        s0.queue_view().len() < s0.cap(),
        (w.id() as nat) < s0.task_count(),
        s0.slot_of(w.id() as int) is None,
        wake_transition(s0, w, WakeOutcome::Woken, s1),
        step_transition(s1, ev, s2),
    ensures
        ev matches StepEvent::Skipped(t) && t == w.id(),
        same_state(s0, s2),
{
    assert(s1.queue_view() =~= seq![w.id()]);
    assert(s2.queue_view() =~= Seq::<TaskId>::empty());
    assert(s2.queue_view() =~= s0.queue_view());
}

/// Once the queue is drained, the rest of a run changes nothing: every
/// remaining step is idle.
pub proof fn lemma_drained_run_stays_put<C: Computation>(
    states: Seq<Executor<C>>,
    events: Seq<StepEvent<C>>,
    k: int,
)
    requires
        run_of(states, events),
        0 <= k < states.len(),
        states[k].queue_view().len() == 0,
    ensures
        same_state(states[k], states.last()),
    decreases states.len() - k,
{
    if k < events.len() {
        assert(step_transition(states[k], events[k], states[k + 1]));
        lemma_drained_run_stays_put(states, events, k + 1);
    } else {
        assert(states.last() == states[k]);
    }
}

/// How often `id` is queued.
pub open spec fn occurrences(q: Seq<TaskId>, id: TaskId) -> nat
    decreases q.len(),
{
    if q.len() == 0 {
        0
    } else {
        (if q[0] == id {
            1nat
        } else {
            0nat
        }) + occurrences(q.drop_first(), id)
    }
}

/// A queue with no occurrence of `id` does not contain it.
proof fn lemma_no_occurrence_not_contained(q: Seq<TaskId>, id: TaskId)
    requires
        occurrences(q, id) == 0,
    ensures
        !q.contains(id),
    decreases q.len(),
{
    if q.len() > 0 {
        lemma_no_occurrence_not_contained(q.drop_first(), id);
        assert forall|i: int| 0 <= i < q.len() implies q[i] != id by {
            if i > 0 {
                assert(q.drop_first()[i - 1] == q[i]);
            }
        }
    }
}

/// During a run's first `k` steps — while the starting queue is still being
/// worked off — the queue is consumed front to back and only the tasks whose
/// identifiers were dequeued can have been touched.
proof fn lemma_run_prefix<C: Computation>(
    states: Seq<Executor<C>>,
    events: Seq<StepEvent<C>>,
    k: int,
)
    requires
        run_of(states, events),
        0 <= k <= events.len(),
        k <= states[0].queue_view().len(),
    ensures
        states[k].queue_view() == states[0].queue_view().skip(k),
        states[k].task_count() == states[0].task_count(),
        forall|j: int|
            0 <= j < states[0].task_count() && (forall|i: int|
                0 <= i < k ==> states[0].queue_view()[i] != j) ==> #[trigger] states[k].slot_of(j)
                == states[0].slot_of(j),
    decreases k,
{
    if k == 0 {
        assert(states[0].queue_view().skip(0) =~= states[0].queue_view());
    } else {
        lemma_run_prefix(states, events, k - 1);
        assert(step_transition(states[k - 1], events[k - 1], states[k]));
        assert(states[k - 1].queue_view()[0] == states[0].queue_view()[k - 1]);
        assert(states[k].queue_view() =~= states[0].queue_view().skip(k));
        assert forall|j: int|
            0 <= j < states[0].task_count() && (forall|i: int|
                0 <= i < k ==> states[0].queue_view()[i] != j) implies #[trigger] states[k].slot_of(
            j,
        ) == states[0].slot_of(j) by {
            assert(states[0].queue_view()[k - 1] != j);
            assert(states[k - 1].slot_of(j) == states[0].slot_of(j));
        }
    }
}

/// FIFO observed across a whole run: spawn one computation and then another
/// with no dequeues in between, and any run long enough to get past what was
/// already queued polls them in submission order — everything queued ahead
/// of them is delivered first, then the first spawn is polled, then the
/// second.
pub proof fn lemma_spawn_order_observed_in_run<C: Computation>(
    s0: Executor<C>,
    ca: C,
    a: TaskId,
    s1: Executor<C>,
    cb: C,
    b: TaskId,
    s2: Executor<C>,
    states: Seq<Executor<C>>,
    events: Seq<StepEvent<C>>,
)
    requires
        s0.wf(),
        spawn_transition(s0, ca, Ok(a), s1),
        spawn_transition(s1, cb, Ok(b), s2),
        run_of(states, events),
        states[0] == s2,
        events.len() >= s0.queue_view().len() + 2,
    ensures
        polls(events[s0.queue_view().len() as int], a),
        polls(events[s0.queue_view().len() as int + 1], b),
{
    s0.lemma_task_count_bounded();
    s1.lemma_task_count_bounded();
    let q0 = s0.queue_view();
    let l = q0.len() as int;
    assert(a as nat == s0.task_count());
    assert(b as nat == s1.task_count());
    assert(s2.queue_view() =~= q0.push(a).push(b));
    assert(s2.slot_of(a as int) == Some(ca));
    assert(s2.slot_of(b as int) == Some(cb));

    // Everything queued ahead of the two fresh tasks names an older task.
    assert forall|i: int| 0 <= i < l implies s2.queue_view()[i] != a && s2.queue_view()[i]
        != b by {
        assert(s2.queue_view()[i] == q0[i]);
        assert((q0[i] as nat) < s0.task_count());
    }

    lemma_run_prefix(states, events, l);
    assert(states[l].queue_view() =~= seq![a, b]);
    assert(states[l].slot_of(a as int) == Some(ca));
    assert(step_transition(states[l], events[l], states[l + 1]));

    lemma_run_prefix(states, events, l + 1);
    assert(states[l + 1].queue_view() =~= seq![b]);
    assert(states[l + 1].slot_of(b as int) == Some(cb));
    assert(step_transition(states[l + 1], events[l + 1], states[l + 2]));
}

/// A task queued at most once is polled at most once across any whole run:
/// its one delivery removes the one occurrence, and without a further wake
/// no later step reaches it.  Together with `lemma_woken_polled_once` — the
/// delivery of a lone occurrence of a pending task does poll it — one wake
/// means exactly one more poll.
pub proof fn lemma_queued_once_polled_at_most_once<C: Computation>(
    states: Seq<Executor<C>>,
    events: Seq<StepEvent<C>>,
    id: TaskId,
)
    requires
        run_of(states, events),
        (id as nat) < states[0].task_count(),
        occurrences(states[0].queue_view(), id) <= 1,
    ensures
        forall|i: int, j: int|
            0 <= i < j < events.len() ==> !(polls(#[trigger] events[i], id) && polls(
                #[trigger] events[j],
                id,
            )),
    decreases events.len(),
{
    if events.len() > 0 {
        assert(step_transition(states[0], events[0], states[1]));
        let tail_states = states.drop_first();
        let tail_events = events.drop_first();
        assert forall|i: int|
            0 <= i < tail_events.len() implies step_transition(
            tail_states[i],
            #[trigger] tail_events[i],
            tail_states[i + 1],
        ) by {
            assert(tail_events[i] == events[i + 1]);
            assert(tail_states[i] == states[i + 1]);
            assert(tail_states[i + 1] == states[i + 2]);
        }
        if polls(events[0], id) {
            // The one occurrence is consumed: no later step polls the task.
            assert(states[0].queue_view()[0] == id);
            assert(states[1].queue_view() == states[0].queue_view().drop_first());
            assert(occurrences(states[1].queue_view(), id) == 0);
            lemma_no_occurrence_not_contained(states[1].queue_view(), id);
            lemma_never_polled_without_wake(tail_states, tail_events, id);
            assert forall|i: int, j: int|
                0 <= i < j < events.len() implies !(polls(#[trigger] events[i], id) && polls(
                #[trigger] events[j],
                id,
            )) by {
                assert(!polls(tail_events[j - 1], id));
            }
        } else {
            // The occurrence count cannot grow: the queue only shrinks.
            if states[0].queue_view().len() > 0 {
                assert(states[1].queue_view() == states[0].queue_view().drop_first());
                assert(occurrences(states[1].queue_view(), id) <= 1);
            } else {
                assert(states[1].queue_view() == states[0].queue_view());
            }
            lemma_queued_once_polled_at_most_once(tail_states, tail_events, id);
            assert forall|i: int, j: int|
                0 <= i < j < events.len() implies !(polls(#[trigger] events[i], id) && polls(
                #[trigger] events[j],
                id,
            )) by {
                if i > 0 {
                    assert(!(polls(tail_events[i - 1], id) && polls(tail_events[j - 1], id)));
                }
            }
        }
    }
}

/// Overflow behaviour: a spawn beyond the queue's capacity is refused — the
/// submission fails and the executor is left exactly as it was — while a
/// spawn below capacity always succeeds.
pub proof fn lemma_spawn_overflow<C: Computation>(
    pre: Executor<C>,
    c: C,
    r: Result<TaskId, QueueFull>,
    post: Executor<C>,
)
    requires
        spawn_transition(pre, c, r, post),
    ensures
        r is Err <==> pre.queue_view().len() >= pre.cap(),
        r is Err ==> same_state(pre, post),
{
}

} // verus!
