use book_tutorials::blocking::Blocking;
use book_tutorials::counter::SharedCounter;
use book_tutorials::error::Error;

/// The four steps in which a worker adds one to the counter.
#[derive(Clone, Copy, PartialEq, Debug)]
enum Step {
    Acquire,
    Read,
    Write(i64),
    Release,
    Done,
}

/// Lets the worker `context` make its next step, and gives the step that
/// comes after it.
fn advance(counter: &mut SharedCounter, context: u64, step: Step) -> Step {
    match step {
        Step::Acquire => match counter.acquire(context) {
            Blocking::Ready(Ok(())) => Step::Read,
            Blocking::Ready(Err(error)) => panic!("{}", error.description()),
            Blocking::WouldBlock => Step::Acquire,
        },
        Step::Read => Step::Write(counter.read(context).unwrap() + 1),
        Step::Write(value) => {
            assert!(counter.write(context, value));
            Step::Release
        }
        Step::Release => {
            assert!(counter.release(context));
            Step::Done
        }
        Step::Done => Step::Done,
    }
}

/// Runs `workers` workers, picking the next one to move by a fixed rule
/// that depends on `seed`, until all are done.
fn run_workers(workers: usize, seed: u64) -> SharedCounter {
    let mut counter = SharedCounter::new(0);
    let mut steps = vec![Step::Acquire; workers];
    let mut pick = seed;
    while steps.iter().any(|step| *step != Step::Done) {
        pick = pick.wrapping_mul(6364136223846793005).wrapping_add(1442695040888963407);
        let worker = ((pick >> 33) as usize) % workers;
        steps[worker] = advance(&mut counter, worker as u64, steps[worker]);
    }
    counter
}

#[test]
fn ten_workers_count_to_ten_on_every_run() {
    for seed in 0..50 {
        let mut counter = run_workers(10, seed);
        assert_eq!(counter.holder(), None);
        assert_eq!(counter.acquire(99), Blocking::Ready(Ok(())));
        assert_eq!(counter.read(99), Some(10));
    }
}

#[test]
fn no_workers_leave_the_counter_at_zero() {
    let mut counter = SharedCounter::new(0);
    assert_eq!(counter.with_lock(0, |value| (value, value)), Blocking::Ready(Ok(0)));
}

#[test]
fn one_worker_counts_to_one() {
    let mut counter = run_workers(1, 3);
    assert_eq!(counter.with_lock(5, |value| (value, value)), Blocking::Ready(Ok(1)));
}

#[test]
fn with_lock_applies_the_change_and_returns_its_result() {
    let mut counter = SharedCounter::new(5);
    let answer = counter.with_lock(1, |value| (6, value));
    assert_eq!(answer, Blocking::Ready(Ok(5)));
    assert_eq!(counter.holder(), None);
    let answer = counter.with_lock(2, |value| (value + 1, "changed"));
    assert_eq!(answer, Blocking::Ready(Ok("changed")));
    assert_eq!(counter.with_lock(1, |value| (value, value)), Blocking::Ready(Ok(7)));
}

#[test]
fn with_lock_frees_the_guard_when_the_change_fails() {
    let mut counter = SharedCounter::new(1);
    let failed: Blocking<Result<Result<(), &str>, Error>> =
        counter.with_lock(1, |value| (value, Err("no")));
    assert_eq!(failed, Blocking::Ready(Ok(Err("no"))));
    assert_eq!(counter.holder(), None);
    assert_eq!(counter.acquire(2), Blocking::Ready(Ok(())));
    assert_eq!(counter.read(2), Some(1));
}

#[test]
fn second_acquire_by_the_holder_fails_with_reentrant_lock() {
    let mut counter = SharedCounter::new(0);
    assert_eq!(counter.acquire(4), Blocking::Ready(Ok(())));
    assert_eq!(counter.holder(), Some(4));
    assert_eq!(counter.acquire(4), Blocking::Ready(Err(Error::ReentrantLock)));
    let nested = counter.with_lock(4, |value| (value + 1, ()));
    assert_eq!(nested, Blocking::Ready(Err(Error::ReentrantLock)));
    assert_eq!(counter.holder(), Some(4));
    assert_eq!(counter.read(4), Some(0));
}

#[test]
fn another_context_has_to_wait_for_the_guard() {
    let mut counter = SharedCounter::new(0);
    assert_eq!(counter.acquire(1), Blocking::Ready(Ok(())));
    assert_eq!(counter.acquire(2), Blocking::WouldBlock);
    assert_eq!(counter.with_lock(2, |value| (value + 1, ())), Blocking::WouldBlock);
    assert_eq!(counter.holder(), Some(1));
    assert!(counter.release(1));
    assert_eq!(counter.acquire(2), Blocking::Ready(Ok(())));
    assert_eq!(counter.read(2), Some(0));
}

#[test]
fn nobody_reads_or_writes_without_the_guard() {
    let mut counter = SharedCounter::new(3);
    assert_eq!(counter.read(1), None);
    assert!(!counter.write(1, 9));
    assert!(!counter.release(1));
    assert_eq!(counter.acquire(2), Blocking::Ready(Ok(())));
    assert_eq!(counter.read(1), None);
    assert!(!counter.write(1, 9));
    assert!(!counter.release(1));
    assert_eq!(counter.read(2), Some(3));
    assert!(counter.write(2, 4));
    assert_eq!(counter.read(2), Some(4));
    assert!(counter.release(2));
    assert_eq!(counter.read(2), None);
}

#[test]
fn handles_are_counted_and_the_last_one_ends_the_counter() {
    let mut counter = SharedCounter::new(0);
    assert_eq!(counter.handles(), 1);
    for _ in 0..10 {
        assert!(counter.clone_handle());
    }
    assert_eq!(counter.handles(), 11);
    assert_eq!(counter.with_lock(1, |value| (value + 1, ())), Blocking::Ready(Ok(())));
    for _ in 0..10 {
        counter.drop_handle();
        assert!(!counter.is_destroyed());
    }
    assert_eq!(counter.handles(), 1);
    counter.drop_handle();
    assert!(counter.is_destroyed());
    assert!(!counter.clone_handle());
    counter.drop_handle();
    assert_eq!(counter.handles(), 0);
}
