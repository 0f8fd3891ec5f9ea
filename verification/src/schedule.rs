//! Schedules of workers that share a counter: what holds however the steps
//! of the workers are interleaved.
//!
//! Each worker changes the counter once, in four steps: it takes the guard,
//! reads the value, stores what it makes of that value, and gives the guard
//! back. A schedule says which worker moves next. A worker that asks for
//! the guard while another holds it does not move: it has to ask again. The
//! statements of this module are about all schedules.

use crate::blocking::Blocking;
use crate::counter::CounterView;
use crate::error::Error;
use vstd::prelude::*;

verus! {

/// How far a worker has come.
pub enum Progress {
    /// The worker has yet to get the guard.
    Waiting,
    /// The worker holds the guard and has not read the value yet.
    Locked,
    /// The worker holds the guard and has read this value.
    Loaded(int),
    /// The worker holds the guard and has stored the new value.
    Stored,
    /// The worker has given the guard back.
    Done,
}

impl Progress {
    /// Whether the worker is between taking the guard and giving it back.
    pub open spec fn inside(self) -> bool {
        self is Locked || self is Loaded || self is Stored
    }

    /// Whether the worker has stored its new value.
    pub open spec fn has_stored(self) -> bool {
        self is Stored || self is Done
    }
}

/// A counter and the workers that share it. The worker at index `i` acts as
/// context `i`.
pub struct Crew {
    /// The counter.
    pub counter: CounterView<int>,
    /// How far each worker has come.
    pub workers: Seq<Progress>,
    /// The workers that have stored, in the order in which they did.
    pub order: Seq<int>,
}

/// What the workers do to the value: `change(worker, value)` is what the
/// worker at index `worker` stores after it has read `value`.
pub type Change = spec_fn(int, int) -> int;

/// The change by which every worker adds one.
pub open spec fn add_one() -> Change {
    |worker: int, value: int| value + 1
}

/// `workers` workers that have not begun, around a new counter that holds
/// `initial`.
pub open spec fn assemble(workers: nat, initial: int) -> Crew {
    Crew {
        counter: CounterView::fresh(initial),
        workers: Seq::new(workers, |i: int| Progress::Waiting),
        order: Seq::empty(),
    }
}

/// The crew after the worker at index `worker` has made its next step. An
/// index that names no worker changes nothing, and neither does a worker
/// that is done or that has to wait for the guard.
pub open spec fn advance(crew: Crew, worker: int, change: Change) -> Crew {
    if 0 <= worker < crew.workers.len() {
        let context = worker as nat;
        match crew.workers[worker] {
            Progress::Waiting => if crew.counter.acquire_result(context) == Blocking::Ready(
                Ok::<(), Error>(()),
            ) {
                Crew {
                    counter: crew.counter.acquire(context),
                    workers: crew.workers.update(worker, Progress::Locked),
                    ..crew
                }
            } else {
                crew
            },
            Progress::Locked => match crew.counter.read(context) {
                Some(value) => Crew {
                    workers: crew.workers.update(worker, Progress::Loaded(value)),
                    ..crew
                },
                None => crew,
            },
            Progress::Loaded(value) => if crew.counter.held_by(context) {
                Crew {
                    counter: crew.counter.write(context, change(worker, value)),
                    workers: crew.workers.update(worker, Progress::Stored),
                    order: crew.order.push(worker),
                }
            } else {
                crew
            },
            Progress::Stored => Crew {
                counter: crew.counter.release(context),
                workers: crew.workers.update(worker, Progress::Done),
                ..crew
            },
            Progress::Done => crew,
        }
    } else {
        crew
    }
}

/// The crew after the steps of `schedule`, in their order.
pub open spec fn run(crew: Crew, schedule: Seq<int>, change: Change) -> Crew
    decreases schedule.len(),
{
    if schedule.len() == 0 {
        crew
    } else {
        advance(run(crew, schedule.drop_last(), change), schedule.last(), change)
    }
}

/// The value that results when the workers of `order` change `initial` one
/// after the other, each working on what the one before it has stored.
pub open spec fn one_by_one(initial: int, order: Seq<int>, change: Change) -> int
    decreases order.len(),
{
    if order.len() == 0 {
        initial
    } else {
        change(order.last(), one_by_one(initial, order.drop_last(), change))
    }
}

/// How many of `workers` have stored their new value.
pub open spec fn stored(workers: Seq<Progress>) -> nat
    decreases workers.len(),
{
    if workers.len() == 0 {
        0
    } else {
        stored(workers.drop_last()) + if workers.last().has_stored() {
            1nat
        } else {
            0nat
        }
    }
}

/// Whether every one of `workers` is done.
pub open spec fn all_done(workers: Seq<Progress>) -> bool {
    forall|i: int| 0 <= i < workers.len() ==> #[trigger] workers[i] is Done
}

/// At most one of `workers` is between taking the guard and giving it back.
pub open spec fn one_at_a_time(workers: Seq<Progress>) -> bool {
    forall|i: int, j: int|
        0 <= i < workers.len() && 0 <= j < workers.len() && (#[trigger] workers[i]).inside() && (
        #[trigger] workers[j]).inside() ==> i == j
}

/// What holds of a crew at every moment.
///
/// The counter holds what the workers that have stored made of the initial
/// value, one after the other; each of them is listed once in the order of
/// storing; and the guard is held by the one worker that is inside, if any
/// is, which has read what the counter holds now.
pub open spec fn consistent(crew: Crew, workers: nat, initial: int, change: Change) -> bool {
    &&& crew.workers.len() == workers
    &&& crew.counter.value == one_by_one(initial, crew.order, change)
    &&& crew.counter.handles == 1
    &&& crew.order.len() == stored(crew.workers)
    &&& crew.order.no_duplicates()
    &&& forall|k: int|
        0 <= k < crew.order.len() ==> 0 <= #[trigger] crew.order[k] < workers
            && crew.workers[crew.order[k]].has_stored()
    &&& match crew.counter.holder {
        None => forall|i: int| 0 <= i < workers ==> !(#[trigger] crew.workers[i]).inside(),
        Some(holder) => {
            &&& holder < workers
            &&& crew.workers[holder as int].inside()
            &&& crew.workers[holder as int] matches Progress::Loaded(value) ==> value
                == crew.counter.value
            &&& forall|i: int|
                0 <= i < workers && i != holder ==> !(#[trigger] crew.workers[i]).inside()
        },
    }
}

/// Replacing the progress of one worker changes the count of those that
/// have stored by what that worker adds to it.
pub proof fn lemma_stored_after_update(workers: Seq<Progress>, worker: int, progress: Progress)
    requires
        0 <= worker < workers.len(),
    ensures
        stored(workers.update(worker, progress)) + (if workers[worker].has_stored() {
            1nat
        } else {
            0nat
        }) == stored(workers) + (if progress.has_stored() {
            1nat
        } else {
            0nat
        }),
    decreases workers.len(),
{
    let updated = workers.update(worker, progress);
    if worker == workers.len() - 1 {
        assert(updated.drop_last() =~= workers.drop_last());
    } else {
        lemma_stored_after_update(workers.drop_last(), worker, progress);
        assert(updated.drop_last() =~= workers.drop_last().update(worker, progress));
    }
}

/// Workers of which none has begun have stored nothing.
pub proof fn lemma_stored_at_start(workers: nat)
    ensures
        stored(Seq::new(workers, |i: int| Progress::Waiting)) == 0,
    decreases workers,
{
    if workers > 0 {
        lemma_stored_at_start((workers - 1) as nat);
        assert(Seq::new(workers, |i: int| Progress::Waiting).drop_last() =~= Seq::new(
            (workers - 1) as nat,
            |i: int| Progress::Waiting,
        ));
    }
}

/// Workers that are all done have all stored.
pub proof fn lemma_stored_when_all_done(workers: Seq<Progress>)
    requires
        all_done(workers),
    ensures
        stored(workers) == workers.len(),
    decreases workers.len(),
{
    if workers.len() > 0 {
        assert(workers[workers.len() - 1] is Done);
        assert forall|i: int| 0 <= i < workers.drop_last().len() implies #[trigger] workers.drop_last()[i] is Done by {
            assert(workers[i] is Done);
        }
        lemma_stored_when_all_done(workers.drop_last());
    }
}

/// Workers that each add one raise the value by their number.
pub proof fn lemma_one_by_one_adds_up(initial: int, order: Seq<int>)
    ensures
        one_by_one(initial, order, add_one()) == initial + order.len(),
    decreases order.len(),
{
    if order.len() > 0 {
        lemma_one_by_one_adds_up(initial, order.drop_last());
    }
}

/// One step keeps a consistent crew consistent.
pub proof fn lemma_advance_keeps_consistent(
    crew: Crew,
    worker: int,
    workers: nat,
    initial: int,
    change: Change,
)
    requires
        consistent(crew, workers, initial, change),
    ensures
        consistent(advance(crew, worker, change), workers, initial, change),
{
    if 0 <= worker < crew.workers.len() {
        let next = advance(crew, worker, change);
        match crew.workers[worker] {
            Progress::Waiting => {
                if crew.counter.holder is None {
                    lemma_stored_after_update(crew.workers, worker, Progress::Locked);
                }
            },
            Progress::Locked => {
                lemma_stored_after_update(
                    crew.workers,
                    worker,
                    Progress::Loaded(crew.counter.value),
                );
            },
            Progress::Loaded(value) => {
                lemma_stored_after_update(crew.workers, worker, Progress::Stored);
                assert(next.order.drop_last() =~= crew.order);
                assert forall|k: int| 0 <= k < crew.order.len() implies crew.order[k]
                    != worker by {
                    assert(crew.workers[crew.order[k]].has_stored());
                }
            },
            Progress::Stored => {
                lemma_stored_after_update(crew.workers, worker, Progress::Done);
            },
            Progress::Done => {},
        }
    }
}

/// Every schedule keeps a crew consistent.
pub proof fn lemma_run_keeps_consistent(
    crew: Crew,
    schedule: Seq<int>,
    workers: nat,
    initial: int,
    change: Change,
)
    requires
        consistent(crew, workers, initial, change),
    ensures
        consistent(run(crew, schedule, change), workers, initial, change),
    decreases schedule.len(),
{
    if schedule.len() > 0 {
        lemma_run_keeps_consistent(crew, schedule.drop_last(), workers, initial, change);
        lemma_advance_keeps_consistent(
            run(crew, schedule.drop_last(), change),
            schedule.last(),
            workers,
            initial,
            change,
        );
    }
}

/// The changes take effect one after the other, whatever the schedule.
///
/// Let `workers` workers each change a counter that starts at `initial`,
/// their steps interleaved in any way. At every moment at most one worker
/// is between taking the guard and giving it back, and the counter holds
/// what the workers that have stored so far made of `initial` one after
/// the other, in the order in which they stored: as if each of them had
/// done its reading and storing in one step, alone. No worker is in that
/// order twice, and every worker that has stored is in it.
pub proof fn law_changes_take_effect_in_turn(
    workers: nat,
    initial: int,
    schedule: Seq<int>,
    change: Change,
)
    ensures
        ({
            let end = run(assemble(workers, initial), schedule, change);
            &&& end.workers.len() == workers
            &&& one_at_a_time(end.workers)
            &&& end.counter.value == one_by_one(initial, end.order, change)
            &&& end.order.no_duplicates()
            &&& end.order.len() == stored(end.workers)
            &&& forall|k: int|
                0 <= k < end.order.len() ==> 0 <= #[trigger] end.order[k] < workers
                    && end.workers[end.order[k]].has_stored()
        }),
{
    lemma_stored_at_start(workers);
    lemma_run_keeps_consistent(assemble(workers, initial), schedule, workers, initial, change);
}

/// No update is lost, whatever the schedule.
///
/// Let `workers` workers each add one to a counter that starts at
/// `initial`, their steps interleaved in any way. At every moment the
/// counter stands at `initial` plus the number of workers that have stored
/// so far. Once all the workers are done, the counter stands at
/// `initial + workers` and the guard is free.
pub proof fn law_no_update_is_lost(workers: nat, initial: int, schedule: Seq<int>)
    ensures
        ({
            let end = run(assemble(workers, initial), schedule, add_one());
            &&& end.counter.value == initial + stored(end.workers)
            &&& all_done(end.workers) ==> end.counter.value == initial + workers
                && end.counter.holder is None
        }),
{
    let start = assemble(workers, initial);
    lemma_stored_at_start(workers);
    lemma_run_keeps_consistent(start, schedule, workers, initial, add_one());
    let end = run(start, schedule, add_one());
    lemma_one_by_one_adds_up(initial, end.order);
    if all_done(end.workers) {
        lemma_stored_when_all_done(end.workers);
        if end.counter.holder is Some {
            let holder = end.counter.holder->0;
            assert(end.workers[holder as int] is Done);
        }
    }
}

} // verus!
