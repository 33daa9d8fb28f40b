//! The decisions of an asynchronous scoped run.
//!
//! A scoped run drives a primary computation with its unwinds captured, then runs a cleanup
//! computation, and only then surfaces what the primary produced: its output is returned, or its
//! unwind resumed. The driver performs the computations; the functions here say what comes
//! next.
use vstd::prelude::*;

verus! {

/// How one poll of a computation ended: it has to be polled again, or it finished.
pub enum Progress<T> {
    Pending,
    Ready(T),
}

/// The poll result of a capturing wrapper, from one guarded poll of the inner computation:
/// `Ok` is what that poll returned, `Err` the payload of an unwind it raised.
///
/// A normal poll passes through unchanged; a captured unwind finishes the wrapper with the
/// payload as its failure value.
pub fn capture_poll<T, P>(attempt: Result<Progress<T>, P>) -> (r: Progress<Result<T, P>>)
    ensures
        r == match attempt {
            Ok(Progress::Pending) => Progress::Pending,
            Ok(Progress::Ready(v)) => Progress::Ready(Ok(v)),
            Err(p) => Progress::Ready(Err(p)),
        },
{
    match attempt {
        Ok(Progress::Pending) => Progress::Pending,
        Ok(Progress::Ready(v)) => Progress::Ready(Ok(v)),
        Err(p) => Progress::Ready(Err(p)),
    }
}

/// Where a scoped run stands. `R` is the primary's output, `P` an unwind payload.
pub enum ScopedRun<R, P> {
    /// The primary computation is being driven.
    RunningPrimary,
    /// The primary has settled with this outcome; the cleanup computation is being driven.
    RunningCleanup(Result<R, P>),
    /// Done: return this output.
    Returning(R),
    /// Done: resume the unwind with this payload.
    Repropagating(P),
}

/// What the driver reports to a scoped run.
pub enum RunEvent<R, P> {
    /// The primary computation finished with an output (`Ok`) or a captured unwind (`Err`).
    PrimarySettled(Result<R, P>),
    /// The cleanup computation ran to its end.
    CleanupFinished,
}

/// The final state that surfaces a settled outcome of the primary.
pub open spec fn surfaced<R, P>(outcome: Result<R, P>) -> ScopedRun<R, P> {
    match outcome {
        Ok(v) => ScopedRun::Returning(v),
        Err(p) => ScopedRun::Repropagating(p),
    }
}

/// The state after `event`. An event that does not fit the state leaves it as it is: the
/// cleanup cannot finish before the primary has settled, and a settled primary settles once.
pub open spec fn next<R, P>(state: ScopedRun<R, P>, event: RunEvent<R, P>) -> ScopedRun<R, P> {
    match (state, event) {
        (ScopedRun::RunningPrimary, RunEvent::PrimarySettled(o)) => ScopedRun::RunningCleanup(o),
        (ScopedRun::RunningCleanup(o), RunEvent::CleanupFinished) => surfaced(o),
        (s, _) => s,
    }
}

/// The state after a sequence of events, from the start.
pub open spec fn run<R, P>(events: Seq<RunEvent<R, P>>) -> ScopedRun<R, P>
    decreases events.len(),
{
    if events.len() == 0 {
        ScopedRun::RunningPrimary
    } else {
        next(run(events.drop_last()), events.last())
    }
}

/// Whether the run has finished and has something to surface.
pub open spec fn is_done<R, P>(state: ScopedRun<R, P>) -> bool {
    state is Returning || state is Repropagating
}

/// Whether `events[i]` is the first report of the primary settling.
pub open spec fn first_settled<R, P>(events: Seq<RunEvent<R, P>>, i: int) -> bool {
    &&& 0 <= i < events.len()
    &&& events[i] is PrimarySettled
    &&& forall|k: int| 0 <= k < i ==> !(#[trigger] events[k] is PrimarySettled)
}

/// A run still drives its primary computation exactly as long as no settling was reported.
proof fn lemma_primary_unsettled<R, P>(events: Seq<RunEvent<R, P>>)
    requires
        run(events) is RunningPrimary,
    ensures
        forall|k: int| 0 <= k < events.len() ==> !(#[trigger] events[k] is PrimarySettled),
    decreases events.len(),
{
    if events.len() > 0 {
        let prefix = events.drop_last();
        assert(run(prefix) is RunningPrimary);
        lemma_primary_unsettled(prefix);
        assert forall|k: int| 0 <= k < events.len() implies !(#[trigger] events[k] is PrimarySettled) by {
            if k < prefix.len() {
                assert(events[k] == prefix[k]);
            }
        }
    }
}

/// A run drives its cleanup only after the first settling, and holds that settling's outcome.
proof fn lemma_cleanup_holds_first_outcome<R, P>(events: Seq<RunEvent<R, P>>, o: Result<R, P>)
    requires
        run(events) == ScopedRun::RunningCleanup(o),
    ensures
        exists|i: int|
            first_settled(events, i) && #[trigger] events[i] == RunEvent::<R, P>::PrimarySettled(o),
    decreases events.len(),
{
    let prefix = events.drop_last();
    let i = events.len() - 1;
    if run(prefix) is RunningPrimary {
        lemma_primary_unsettled(prefix);
        assert forall|k: int| 0 <= k < i implies !(#[trigger] events[k] is PrimarySettled) by {
            assert(events[k] == prefix[k]);
        }
        assert(first_settled(events, i));
    } else {
        assert(run(prefix) == ScopedRun::<R, P>::RunningCleanup(o));
        lemma_cleanup_holds_first_outcome(prefix, o);
        let i = choose|i: int|
            first_settled(prefix, i) && #[trigger] prefix[i] == RunEvent::<R, P>::PrimarySettled(o);
        assert forall|k: int| 0 <= k < i implies !(#[trigger] events[k] is PrimarySettled) by {
            assert(events[k] == prefix[k]);
        }
        assert(events[i] == prefix[i]);
        assert(first_settled(events, i));
    }
}

/// Once a scoped run has finished, the cleanup finished after the primary computation settled,
/// and what the run surfaces is the primary's own first outcome: the output it completed with
/// is returned, the unwind it raised is resumed.
pub proof fn lemma_surfaces_primary_after_cleanup<R, P>(events: Seq<RunEvent<R, P>>)
    requires
        is_done(run(events)),
    ensures
        exists|i: int, j: int|
            #![trigger first_settled(events, i), events[j]]
            {
                &&& first_settled(events, i)
                &&& i < j < events.len()
                &&& events[j] is CleanupFinished
                &&& run(events) == surfaced(events[i]->PrimarySettled_0)
            },
    decreases events.len(),
{
    let prefix = events.drop_last();
    let j = events.len() - 1;
    if is_done(run(prefix)) {
        lemma_surfaces_primary_after_cleanup(prefix);
        let (i, j) = choose|i: int, j: int|
            #![trigger first_settled(prefix, i), prefix[j]]
            {
                &&& first_settled(prefix, i)
                &&& i < j < prefix.len()
                &&& prefix[j] is CleanupFinished
                &&& run(prefix) == surfaced(prefix[i]->PrimarySettled_0)
            };
        assert forall|k: int| 0 <= k < i implies !(#[trigger] events[k] is PrimarySettled) by {
            assert(events[k] == prefix[k]);
        }
        assert(events[i] == prefix[i]);
        assert(events[j] == prefix[j]);
        assert(first_settled(events, i));
    } else {
        let o = run(prefix)->RunningCleanup_0;
        lemma_cleanup_holds_first_outcome(prefix, o);
        let i = choose|i: int|
            first_settled(prefix, i) && #[trigger] prefix[i] == RunEvent::<R, P>::PrimarySettled(o);
        assert forall|k: int| 0 <= k < i implies !(#[trigger] events[k] is PrimarySettled) by {
            assert(events[k] == prefix[k]);
        }
        assert(events[i] == prefix[i]);
        assert(first_settled(events, i));
        assert(events[j] is CleanupFinished);
    }
}

impl<R, P> ScopedRun<R, P> {
    /// A run that has yet to drive its primary computation.
    pub fn start() -> (r: Self)
        ensures
            r == run(Seq::<RunEvent<R, P>>::empty()),
    {
        ScopedRun::RunningPrimary
    }

    /// The state after `event`.
    pub fn step(self, event: RunEvent<R, P>) -> (r: Self)
        ensures
            r == next(self, event),
    {
        match (self, event) {
            (ScopedRun::RunningPrimary, RunEvent::PrimarySettled(o)) => ScopedRun::RunningCleanup(o),
            (ScopedRun::RunningCleanup(o), RunEvent::CleanupFinished) => match o {
                Ok(v) => ScopedRun::Returning(v),
                Err(p) => ScopedRun::Repropagating(p),
            },
            (s, _) => s,
        }
    }

    /// Whether the run has finished.
    pub fn done(&self) -> (r: bool)
        ensures
            r == is_done(*self),
    {
        match self {
            ScopedRun::Returning(_) | ScopedRun::Repropagating(_) => true,
            _ => false,
        }
    }
}

} // verus!
