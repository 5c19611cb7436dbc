//! The example asynchronous primitive: a timer future that becomes ready
//! once a fixed delay has elapsed, plus the worked two-phase computation
//! built on top of it.
//!
//! In the running system the delay elapses on a dedicated background thread,
//! which then sets the completion flag and invokes the captured waker
//! exactly once.  Here that thread's body is the explicit [`TimerFuture::expire`]
//! step, so every interleaving of polls and expiries can be driven — and
//! verified — deterministically.

use crate::executor::{
    lemma_drained_run_stays_put, run_of, Computation, Executor, Poll, StepEvent, TaskId, Waker,
};
use vstd::prelude::*;

verus! {

/// State shared between the future and whatever completes it: the completion
/// flag and the waker captured by the latest poll.
#[derive(Debug)]
pub struct SharedState {
    /// Whether the delay has elapsed.  Once true it never reverts.
    pub completed: bool,
    /// The waker of the task the future was last polled on.  Every poll
    /// overwrites it, so only the most recent task is woken.
    pub waker: Option<Waker>,
}

/// An asynchronous primitive that becomes ready after a fixed delay.
#[derive(Debug)]
pub struct TimerFuture {
    shared_state: SharedState,
    duration_ms: u64,
}

impl TimerFuture {
    /// Whether the delay has elapsed.
    pub closed spec fn completed(&self) -> bool {
        self.shared_state.completed
    }

    /// The delay the timer was armed with, in milliseconds.
    pub closed spec fn duration(&self) -> u64 {
        self.duration_ms
    }

    /// A fresh timer armed to complete after `duration_ms` milliseconds.
    ///
    /// The model keeps the delay as a plain number; the threaded driver at
    /// the crate's boundary is what actually sleeps for it.
    pub fn new(duration_ms: u64) -> (t: TimerFuture)
        ensures
            !t.completed(),
            t.captured() is None,
            t.duration() == duration_ms,
    {
        TimerFuture { shared_state: SharedState { completed: false, waker: None }, duration_ms }
    }

    /// The expiry step: what the background thread does when the delay has
    /// elapsed.  Sets the completion flag — permanently — and takes the
    /// captured waker out, to be invoked exactly once by the caller.
    pub fn expire(&mut self) -> (w: Option<Waker>)
        ensures
            final(self).completed(),
            w == old(self).captured(),
            final(self).captured() is None,
            final(self).duration() == old(self).duration(),
    {
        self.shared_state.completed = true;
        self.shared_state.waker.take()
    }
}

impl Computation for TimerFuture {
    open spec fn done(&self) -> bool {
        self.completed()
    }

    /// The waker captured by the latest poll, not yet invoked.
    closed spec fn captured(&self) -> Option<Waker> {
        self.shared_state.waker
    }

    /// Exactly what one poll does to a timer: ready — and otherwise
    /// untouched — when the delay has elapsed; pending with the fresh waker
    /// captured, overwriting any previous one, when it has not.
    open spec fn poll_rel(pre: TimerFuture, waker: Waker, p: Poll, post: TimerFuture) -> bool {
        &&& post.completed() == pre.completed()
        &&& post.duration() == pre.duration()
        &&& if pre.completed() {
            p is Ready && post.captured() == pre.captured()
        } else {
            p is Pending && post.captured() == Some(waker)
        }
    }

    /// Exactly what the completion signal does to a timer: the expiry step.
    open spec fn notify_rel(pre: TimerFuture, w: Option<Waker>, post: TimerFuture) -> bool {
        &&& post.completed()
        &&& post.duration() == pre.duration()
        &&& w == pre.captured()
        &&& post.captured() is None
    }

    /// One poll step: ready exactly when the delay has elapsed; otherwise the
    /// fresh waker is captured, overwriting any previous one, and the future
    /// reports pending.
    fn poll(&mut self, waker: Waker) -> (p: Poll) {
        if self.shared_state.completed {
            Poll::Ready
        } else {
            self.shared_state.waker = Some(waker);
            Poll::Pending
        }
    }

    /// The external completion signal is the timer's expiry.
    fn notify(&mut self) -> (w: Option<Waker>) {
        self.expire()
    }
}

/// Where the worked example stands: about to emit its first line, parked on
/// the timer, or finished.
#[derive(Clone, Copy, Debug, PartialEq, Eq, Structural)]
pub enum GreetingPhase {
    /// Not yet polled.
    Start,
    /// First line emitted; waiting for the timer.
    Waiting,
    /// Both lines emitted.
    Done,
}

/// The worked example computation: emit one line, await a timer, emit a
/// second line.  The emitted lines are collected in a log so that the
/// driver can observe their order.
#[derive(Debug)]
pub struct TimedGreeting {
    phase: GreetingPhase,
    timer: TimerFuture,
    log: Vec<String>,
}

impl TimedGreeting {
    /// The phase the computation is in.
    pub closed spec fn phase(&self) -> GreetingPhase {
        self.phase
    }

    /// The timer the computation awaits.
    pub closed spec fn timer(&self) -> TimerFuture {
        self.timer
    }

    /// The lines emitted so far, in order.
    pub closed spec fn lines(&self) -> Seq<Seq<char>> {
        Seq::new(self.log@.len(), |i: int| self.log@[i]@)
    }

    /// A fresh computation whose timer is armed for `duration_ms`.
    pub fn new(duration_ms: u64) -> (g: TimedGreeting)
        ensures
            g.phase() is Start,
            g.lines() == Seq::<Seq<char>>::empty(),
            !g.timer().completed(),
            g.timer().duration() == duration_ms,
    {
        let g = TimedGreeting {
            phase: GreetingPhase::Start,
            timer: TimerFuture::new(duration_ms),
            log: Vec::new(),
        };
        proof {
            assert(g.lines() =~= Seq::<Seq<char>>::empty());
        }
        g
    }

    /// Hands the emitted lines out once the driver is done with the
    /// computation.
    pub fn into_log(self) -> (log: Vec<String>)
        ensures
            log@.len() == self.lines().len(),
            forall|i: int| 0 <= i < log@.len() ==> log@[i]@ == self.lines()[i],
    {
        self.log
    }
}

impl Computation for TimedGreeting {
    open spec fn done(&self) -> bool {
        self.phase() is Done
    }

    /// The inner timer's captured waker.
    closed spec fn captured(&self) -> Option<Waker> {
        self.timer.captured()
    }

    /// Exactly what one poll does to the two-phase example, per phase: on
    /// the first poll it emits "start" and then drives the timer; once the
    /// timer has completed, a poll emits "end" and finishes; in between it
    /// parks on the fresh waker.
    open spec fn poll_rel(pre: TimedGreeting, waker: Waker, p: Poll, post: TimedGreeting) -> bool {
        &&& post.timer().completed() == pre.timer().completed()
        &&& (pre.phase() is Start && !pre.timer().completed() ==> {
            &&& p is Pending
            &&& post.phase() is Waiting
            &&& post.lines() == pre.lines().push("start"@)
            &&& post.timer().captured() == Some(waker)
        })
        &&& (pre.phase() is Start && pre.timer().completed() ==> {
            &&& p is Ready
            &&& post.lines() == pre.lines().push("start"@).push("end"@)
        })
        &&& (pre.phase() is Waiting && !pre.timer().completed() ==> {
            &&& p is Pending
            &&& post.phase() is Waiting
            &&& post.lines() == pre.lines()
            &&& post.timer().captured() == Some(waker)
        })
        &&& (pre.phase() is Waiting && pre.timer().completed() ==> {
            &&& p is Ready
            &&& post.lines() == pre.lines().push("end"@)
        })
        &&& (pre.phase() is Done ==> p is Ready && post.lines() == pre.lines())
    }

    /// Exactly what the completion signal does: the inner timer expires;
    /// phase and emitted lines are untouched.
    open spec fn notify_rel(pre: TimedGreeting, w: Option<Waker>, post: TimedGreeting) -> bool {
        &&& post.phase() == pre.phase()
        &&& post.lines() == pre.lines()
        &&& post.timer().completed()
        &&& post.timer().duration() == pre.timer().duration()
        &&& w == pre.timer().captured()
        &&& post.timer().captured() is None
    }

    /// One poll step of the two-phase example: on the first poll it emits
    /// "start" and then drives the timer; once the timer has completed, a
    /// poll emits "end" and finishes.
    fn poll(&mut self, waker: Waker) -> (p: Poll) {
        match self.phase {
            GreetingPhase::Start => {
                self.log.push("start".to_owned());
                proof {
                    assert(self.lines() =~= old(self).lines().push("start"@));
                }
                self.phase = GreetingPhase::Waiting;
                self.finish_or_park(waker)
            },
            GreetingPhase::Waiting => { self.finish_or_park(waker) },
            GreetingPhase::Done => Poll::Ready,
        }
    }

    /// The external completion signal reaches the inner timer.
    fn notify(&mut self) -> (w: Option<Waker>) {
        self.timer.expire()
    }
}

impl TimedGreeting {
    /// Drives the inner timer once: emits "end" and finishes when the delay
    /// has elapsed, parks on the waker otherwise.
    fn finish_or_park(&mut self, waker: Waker) -> (p: Poll)
        requires
            old(self).phase() is Waiting,
        ensures
            !old(self).timer().completed() ==> {
                &&& p is Pending
                &&& final(self).phase() is Waiting
                &&& final(self).lines() == old(self).lines()
                &&& final(self).timer().captured() == Some(waker)
            },
            old(self).timer().completed() ==> {
                &&& p is Ready
                &&& final(self).phase() is Done
                &&& final(self).lines() == old(self).lines().push("end"@)
            },
            final(self).timer().completed() == old(self).timer().completed(),
            p is Ready <==> final(self).phase() is Done,
    {
        match self.timer.poll(waker) {
            Poll::Ready => {
                self.log.push("end".to_owned());
                proof {
                    assert(self.lines() =~= old(self).lines().push("end"@));
                }
                self.phase = GreetingPhase::Done;
                Poll::Ready
            },
            Poll::Pending => Poll::Pending,
        }
    }
}

/// The worked scenario's first half, over any run of the executor: with the
/// fresh two-phase greeting as the only queued task, a run that drains the
/// queue polls it exactly once — it emits "start", parks in the waiting
/// phase on its unexpired timer, and holds a captured waker for its own
/// task.
pub proof fn lemma_greeting_parks_on_first_run(
    states: Seq<Executor<TimedGreeting>>,
    events: Seq<StepEvent<TimedGreeting>>,
    id: TaskId,
)
    requires
        run_of(states, events),
        states[0].queue_view() =~= seq![id],
        (id as nat) < states[0].task_count(),
        states[0].slot_of(id as int) matches Some(g) && {
            &&& g.phase() is Start
            &&& !g.timer().completed()
            &&& g.lines() == Seq::<Seq<char>>::empty()
        },
        states.last().queue_view().len() == 0,
    ensures
        states.last().slot_of(id as int) matches Some(g1) && {
            &&& g1.phase() is Waiting
            &&& g1.lines() == seq!["start"@]
            &&& !g1.timer().completed()
            &&& g1.timer().captured() matches Some(w) && w.id() == id
        },
{
    assert(events.len() > 0) by {
        if events.len() == 0 {
            assert(states.last() == states[0]);
        }
    }
    assert(crate::executor::step_transition(states[0], events[0], states[1]));
    let g = states[0].slot_of(id as int)->0;
    match events[0] {
        StepEvent::Idle => {
            assert(false);
        },
        StepEvent::Skipped(_) => {
            assert(false);
        },
        StepEvent::Completed(_, c) => {
            // A completion would need a poll reporting ready, which the
            // greeting's poll relation refuses while the timer is unexpired.
            let w = choose|w: Waker|
                w.id() == id && #[trigger] TimedGreeting::poll_rel(g, w, Poll::Ready, c);
            assert(false);
        },
        StepEvent::Yielded(_) => {
            let g1 = states[1].slot_of(id as int)->0;
            let w = choose|w: Waker|
                w.id() == id && #[trigger] TimedGreeting::poll_rel(g, w, Poll::Pending, g1);
            assert(g1.phase() is Waiting);
            assert(g1.lines() =~= seq!["start"@]);
            assert(states[1].queue_view() =~= Seq::<TaskId>::empty());
            lemma_drained_run_stays_put(states, events, 1);
            assert(states.last().slot_of(id as int) == states[1].slot_of(id as int));
        },
    }
}

/// The worked scenario's second half, over any run of the executor: once
/// the parked greeting's timer has expired and its identifier is the only
/// queued task again, a run that drains the queue polls it exactly once —
/// it emits "end" and completes, its slot ends permanently empty, and the
/// finished computation handed out of the run carries exactly the two lines
/// in order.
pub proof fn lemma_greeting_completes_after_wake(
    states: Seq<Executor<TimedGreeting>>,
    events: Seq<StepEvent<TimedGreeting>>,
    id: TaskId,
)
    requires
        run_of(states, events),
        states[0].queue_view() =~= seq![id],
        (id as nat) < states[0].task_count(),
        states[0].slot_of(id as int) matches Some(g) && {
            &&& g.phase() is Waiting
            &&& g.timer().completed()
            &&& g.lines() == seq!["start"@]
        },
        states.last().queue_view().len() == 0,
    ensures
        states.last().slot_of(id as int) is None,
        exists|c: TimedGreeting|
            {
                &&& #[trigger] polls_completed(events, id, c)
                &&& c.done()
                &&& c.lines() == seq!["start"@, "end"@]
            },
{
    assert(events.len() > 0) by {
        if events.len() == 0 {
            assert(states.last() == states[0]);
        }
    }
    assert(crate::executor::step_transition(states[0], events[0], states[1]));
    let g = states[0].slot_of(id as int)->0;
    match events[0] {
        StepEvent::Idle => {
            assert(false);
        },
        StepEvent::Skipped(_) => {
            assert(false);
        },
        StepEvent::Yielded(_) => {
            // A yield would need a poll reporting pending, which the
            // greeting's poll relation refuses once the timer has expired.
            let g1 = states[1].slot_of(id as int)->0;
            let w = choose|w: Waker|
                w.id() == id && #[trigger] TimedGreeting::poll_rel(g, w, Poll::Pending, g1);
            assert(false);
        },
        StepEvent::Completed(_, c) => {
            let w = choose|w: Waker|
                w.id() == id && #[trigger] TimedGreeting::poll_rel(g, w, Poll::Ready, c);
            assert(c.lines() =~= seq!["start"@, "end"@]);
            assert(polls_completed(events, id, c));
            assert(states[1].queue_view() =~= Seq::<TaskId>::empty());
            lemma_drained_run_stays_put(states, events, 1);
            assert(states.last().slot_of(id as int) == states[1].slot_of(id as int));
        },
    }
}

/// Whether some step of the run completed task `id`, handing out the
/// finished computation `c`.
pub open spec fn polls_completed(
    events: Seq<StepEvent<TimedGreeting>>,
    id: TaskId,
    c: TimedGreeting,
) -> bool {
    exists|i: int|
        0 <= i < events.len() && (#[trigger] events[i] matches StepEvent::Completed(t, cc) && t
            == id && cc == c)
}

} // verus!
