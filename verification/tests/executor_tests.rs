//! Scenario tests for the executor core: the end-to-end timer workflow,
//! queue overflow, delivery order, and the wake protocol.

use studies::executor::{new_executor_and_spawner, StepEvent, Task, WakeOutcome, MAX_QUEUED_TASKS};
use studies::timer::{TimedGreeting, TimerFuture};

#[test]
fn timed_greeting_end_to_end() {
    // Spawn a computation that records "start", awaits a timer, then
    // records "end".  The first run parks it on the timer; the timer's
    // expiry wakes it; the next step completes it with the two lines in
    // order.
    let (mut executor, spawner) = new_executor_and_spawner::<TimedGreeting>();
    let id = spawner
        .spawn(&mut executor, TimedGreeting::new(50))
        .expect("spawn fits an empty queue");

    executor.run();
    assert_eq!(executor.queued(), 0);

    // The timer expires on its own schedule; deliver the expiry and invoke
    // the waker it hands back.
    let waker = executor.notify_task(id).expect("the poll captured a waker");
    assert_eq!(executor.wake_by_ref(&waker), WakeOutcome::Woken);
    assert_eq!(executor.queued(), 1);

    match executor.step() {
        StepEvent::Completed(done, computation) => {
            assert_eq!(done, id);
            let log = computation.into_log();
            assert_eq!(log, vec![String::from("start"), String::from("end")]);
        }
        other => panic!("expected completion, saw {:?}", other),
    }
    assert_eq!(executor.queued(), 0);
}

#[test]
fn spawn_overflow_is_refused() {
    // Fill the queue to its capacity, then watch the next spawn fail with
    // the executor unchanged rather than dropping work or hanging.
    let (mut executor, spawner) = new_executor_and_spawner::<TimerFuture>();
    for _ in 0..MAX_QUEUED_TASKS {
        spawner
            .spawn(&mut executor, TimerFuture::new(1))
            .expect("below capacity every spawn succeeds");
    }
    assert_eq!(executor.queued(), MAX_QUEUED_TASKS);

    let overflow = spawner.spawn(&mut executor, TimerFuture::new(1));
    assert!(overflow.is_err());
    assert_eq!(executor.queued(), MAX_QUEUED_TASKS);
}

#[test]
fn fifo_order_within_one_producer() {
    // Two tasks submitted back-to-back from one spawner are observed in
    // submission order.
    let (mut executor, spawner) = new_executor_and_spawner::<TimerFuture>();
    let a = spawner.spawn(&mut executor, TimerFuture::new(1)).unwrap();
    let b = spawner.spawn(&mut executor, TimerFuture::new(1)).unwrap();

    match executor.step() {
        StepEvent::Yielded(first) => assert_eq!(first, a),
        other => panic!("expected the first task, saw {:?}", other),
    }
    match executor.step() {
        StepEvent::Yielded(second) => assert_eq!(second, b),
        other => panic!("expected the second task, saw {:?}", other),
    }
}

#[test]
fn wake_after_completion_is_noop() {
    // A waker invoked after its task completed re-enqueues the identifier,
    // but the delivery is skipped: the computation is gone and nothing is
    // polled.
    let (mut executor, spawner) = new_executor_and_spawner::<TimerFuture>();
    let id = spawner.spawn(&mut executor, TimerFuture::new(1)).unwrap();

    executor.run();
    let waker = executor.notify_task(id).expect("the poll captured a waker");
    assert_eq!(executor.wake_by_ref(&waker), WakeOutcome::Woken);
    match executor.step() {
        StepEvent::Completed(done, _) => assert_eq!(done, id),
        other => panic!("expected completion, saw {:?}", other),
    }

    // The waker is a plain capability and may be invoked again, any time.
    assert_eq!(executor.wake_by_ref(&waker), WakeOutcome::Woken);
    match executor.step() {
        StepEvent::Skipped(skipped) => assert_eq!(skipped, id),
        other => panic!("expected a skipped delivery, saw {:?}", other),
    }
    assert_eq!(executor.queued(), 0);
}

#[test]
fn pending_task_needs_a_wake() {
    // A computation that reported pending and was never woken is never
    // polled again; one wake means exactly one more poll.
    let (mut executor, spawner) = new_executor_and_spawner::<TimerFuture>();
    let id = spawner.spawn(&mut executor, TimerFuture::new(1)).unwrap();

    executor.run();
    assert!(matches!(executor.step(), StepEvent::Idle));
    assert!(matches!(executor.step(), StepEvent::Idle));

    let waker = executor.notify_task(id).expect("the poll captured a waker");
    assert_eq!(executor.wake_by_ref(&waker), WakeOutcome::Woken);
    match executor.step() {
        StepEvent::Completed(done, _) => assert_eq!(done, id),
        other => panic!("expected completion after the wake, saw {:?}", other),
    }
    assert!(matches!(executor.step(), StepEvent::Idle));
}

#[test]
fn taking_a_computation_empties_the_slot() {
    // The at-most-one-holder discipline: the first take obtains the
    // computation, the second finds the slot empty.
    let mut task: Task<TimerFuture> = Task::new(TimerFuture::new(1));
    let first = task.take();
    assert!(first.is_some());
    let second = task.take();
    assert!(second.is_none());
}

#[test]
fn unknown_waker_is_ignored() {
    // A waker from one executor means nothing to another.
    let (mut one, spawner_one) = new_executor_and_spawner::<TimerFuture>();
    let (mut other, _spawner_other) = new_executor_and_spawner::<TimerFuture>();

    let id = spawner_one.spawn(&mut one, TimerFuture::new(1)).unwrap();
    one.run();
    let waker = one.notify_task(id).expect("the poll captured a waker");

    assert_eq!(other.wake_by_ref(&waker), WakeOutcome::Unknown);
    assert_eq!(other.queued(), 0);
}
