//! What holds of every run of a lock acquisition, whatever the outcomes of its steps.

use crate::{decimal, errno, file_lock, lock_metadata, lock_text_laws};
use crate::file_lock::{
    LockAcquisitionView, LockErrorView, LockPathsView, LockStepView, StepOutcomeView, TempFileView,
};
use crate::lock_metadata::{IoErrorKind, IoFailureView, ProcessIdentity};
use vstd::prelude::*;

verus! {

/// The acquisition after these outcomes.
pub open spec fn run(s: LockAcquisitionView, outcomes: Seq<StepOutcomeView>) -> LockAcquisitionView
    decreases outcomes.len(),
{
    if outcomes.len() == 0 {
        s
    } else {
        run(s, outcomes.drop_last()).next(outcomes.last())
    }
}

/// Whether each outcome is one that its step can have.
pub open spec fn possible(s: LockAcquisitionView, outcomes: Seq<StepOutcomeView>) -> bool
    decreases outcomes.len(),
{
    outcomes.len() > 0 ==> {
        &&& possible(s, outcomes.drop_last())
        &&& file_lock::fits(run(s, outcomes.drop_last()).step, outcomes.last())
    }
}

/// The step that had the `i`th outcome.
pub open spec fn step_at(
    s: LockAcquisitionView,
    outcomes: Seq<StepOutcomeView>,
    i: int,
) -> LockStepView {
    run(s, outcomes.take(i)).step
}

/// Whether the lock file was linked to this acquisition's own file.
pub open spec fn linked(s: LockAcquisitionView, outcomes: Seq<StepOutcomeView>) -> bool {
    exists|i: int|
        0 <= i < outcomes.len() && (#[trigger] step_at(s, outcomes, i)) is LinkTemp && outcomes[i]
            is Done
}

/// Whether the guard file was locked.
pub open spec fn guarded(s: LockAcquisitionView, outcomes: Seq<StepOutcomeView>) -> bool {
    exists|i: int|
        0 <= i < outcomes.len() && (#[trigger] step_at(s, outcomes, i)) is LockGuard && outcomes[i]
            is Done
}

/// How often a link to the lock file was tried.
pub open spec fn links_tried(s: LockAcquisitionView, outcomes: Seq<StepOutcomeView>) -> nat
    decreases outcomes.len(),
{
    if outcomes.len() == 0 {
        0
    } else {
        let before = outcomes.drop_last();
        links_tried(s, before) + if run(s, before).step is LinkTemp {
            1nat
        } else {
            0nat
        }
    }
}

/// How many temporary files were created and not removed since. A removal is that of the file
/// that was created last.
pub open spec fn temps_left(s: LockAcquisitionView, outcomes: Seq<StepOutcomeView>) -> nat
    decreases outcomes.len(),
{
    if outcomes.len() == 0 {
        0
    } else {
        let before = outcomes.drop_last();
        let left = temps_left(s, before);
        match run(s, before).step {
            LockStepView::CreateTemp(_, _) if outcomes.last() is Done => left + 1,
            LockStepView::RemoveTemp(_) if outcomes.last() is Done && left > 0 => (left - 1) as nat,
            _ => left,
        }
    }
}

/// How often a temporary file could not be removed.
pub open spec fn removals_failed(s: LockAcquisitionView, outcomes: Seq<StepOutcomeView>) -> nat
    decreases outcomes.len(),
{
    if outcomes.len() == 0 {
        0
    } else {
        let before = outcomes.drop_last();
        removals_failed(s, before) + if run(s, before).step is RemoveTemp && outcomes.last()
            is Failed {
            1nat
        } else {
            0nat
        }
    }
}

/// Whether there is a temporary file that no removal was tried of: the attempt still works with
/// it, or ended because it could not be written or flushed.
pub open spec fn temp_not_dealt_with(
    s: LockAcquisitionView,
    outcomes: Seq<StepOutcomeView>,
) -> bool {
    let step = run(s, outcomes).step;
    let last = step_at(s, outcomes, outcomes.len() - 1);
    ||| step is WriteTemp
    ||| step is SyncTemp
    ||| step is LinkTemp
    ||| step is RemoveTemp
    ||| outcomes.len() > 0 && (last is WriteTemp || last is SyncTemp) && outcomes.last() is Failed
}

/// A bound on the number of steps still to come.
pub open spec fn steps_left(s: LockAcquisitionView) -> nat {
    let later_attempts = 24 * if s.attempts_left > 1 {
        (s.attempts_left - 1) as nat
    } else {
        0nat
    };
    match s.step {
        LockStepView::ProbeDirectory => 30 + later_attempts,
        LockStepView::CreateDirectory => 29 + later_attempts,
        LockStepView::ShareDirectory => 28 + later_attempts,
        LockStepView::OpenGuard => 27 + later_attempts,
        LockStepView::ShareGuard => 26 + later_attempts,
        LockStepView::LockGuard => 25 + later_attempts,
        LockStepView::Identify => 24 + later_attempts,
        LockStepView::NameTemp(temp) => 7 + 2 * if temp.tries_left > 1 {
            temp.tries_left
        } else {
            1nat
        } + later_attempts,
        LockStepView::CreateTemp(temp, _) => 6 + 2 * if temp.tries_left > 1 {
            temp.tries_left
        } else {
            1nat
        } + later_attempts,
        LockStepView::WriteTemp(_) => 7 + later_attempts,
        LockStepView::SyncTemp => 6 + later_attempts,
        LockStepView::LinkTemp => 5 + later_attempts,
        LockStepView::RemoveTemp(_) => 4 + later_attempts,
        LockStepView::ShareLock => 1,
        LockStepView::ReadLock => 3 + later_attempts,
        LockStepView::ProbeHolder(_) => 2 + later_attempts,
        LockStepView::RemoveStale => 1 + later_attempts,
        LockStepView::Finished(_) => 0,
    }
}

/// The steps that touch nothing but the directory and the guard file.
pub open spec fn before_guard(step: LockStepView) -> bool {
    match step {
        LockStepView::ProbeDirectory
        | LockStepView::CreateDirectory
        | LockStepView::ShareDirectory
        | LockStepView::OpenGuard
        | LockStepView::ShareGuard
        | LockStepView::LockGuard => true,
        _ => false,
    }
}

/// Earlier steps of a run do not depend on what comes later.
proof fn lemma_step_at_prefix(
    s: LockAcquisitionView,
    outcomes: Seq<StepOutcomeView>,
    n: int,
    i: int,
)
    requires
        0 <= i <= n <= outcomes.len(),
    ensures
        step_at(s, outcomes.take(n), i) == step_at(s, outcomes, i),
{
    assert(outcomes.take(n).take(i) == outcomes.take(i));
}

/// Each step lowers the bound.
pub proof fn lemma_step_lowers_bound(s: LockAcquisitionView, outcome: StepOutcomeView)
    requires
        file_lock::fits(s.step, outcome),
    ensures
        steps_left(s.next(outcome)) < steps_left(s),
{
    let later = s.next(outcome);
    assert(later.attempts_left == s.attempts_left || later.attempts_left + 1 == s.attempts_left
        || later.attempts_left == 0);
}

/// Each step uses up the bound, so an acquisition ends whatever happens.
pub proof fn acquisition_ends(s: LockAcquisitionView, outcomes: Seq<StepOutcomeView>)
    requires
        possible(s, outcomes),
    ensures
        outcomes.len() + steps_left(run(s, outcomes)) <= steps_left(s),
    decreases outcomes.len(),
{
    if outcomes.len() > 0 {
        acquisition_ends(s, outcomes.drop_last());
        lemma_step_lowers_bound(run(s, outcomes.drop_last()), outcomes.last());
    }
}

/// An acquisition takes at most 78 steps.
pub proof fn acquisition_is_bounded(
    operation: Seq<char>,
    paths: LockPathsView,
    outcomes: Seq<StepOutcomeView>,
)
    requires
        possible(file_lock::initial(operation, paths), outcomes),
    ensures
        outcomes.len() <= 78,
{
    acquisition_ends(file_lock::initial(operation, paths), outcomes);
}

/// The operation and the paths never change, and a lock that was taken is the one that was
/// asked for.
pub proof fn acquisition_keeps_its_paths(
    operation: Seq<char>,
    paths: LockPathsView,
    outcomes: Seq<StepOutcomeView>,
)
    ensures
        ({
            let end = run(file_lock::initial(operation, paths), outcomes);
            &&& end.operation == operation
            &&& end.paths == paths
            &&& end.step matches LockStepView::Finished(Ok(lock_path)) ==> lock_path
                == paths.lock_path
        }),
    decreases outcomes.len(),
{
    if outcomes.len() > 0 {
        acquisition_keeps_its_paths(operation, paths, outcomes.drop_last());
    }
}

/// The lock is taken only by linking the lock file to one's own file, which fails while there
/// is a lock file.
pub proof fn lock_is_taken_by_linking(
    operation: Seq<char>,
    paths: LockPathsView,
    outcomes: Seq<StepOutcomeView>,
)
    requires
        possible(file_lock::initial(operation, paths), outcomes),
    ensures
        ({
            let s = file_lock::initial(operation, paths);
            match run(s, outcomes).step {
                LockStepView::Finished(Ok(_)) => linked(s, outcomes),
                LockStepView::ShareLock => linked(s, outcomes),
                LockStepView::RemoveTemp(Ok(_)) => linked(s, outcomes),
                _ => true,
            }
        }),
    decreases outcomes.len(),
{
    if outcomes.len() > 0 {
        let s = file_lock::initial(operation, paths);
        let before = outcomes.drop_last();
        let n = before.len() as int;
        lock_is_taken_by_linking(operation, paths, before);
        assert(outcomes.take(n) == before);
        assert(step_at(s, outcomes, n) == run(s, before).step);
        if linked(s, before) {
            let i = choose|i: int|
                0 <= i < before.len() && (#[trigger] step_at(s, before, i)) is LinkTemp && before[i]
                    is Done;
            lemma_step_at_prefix(s, outcomes, n, i);
            assert(step_at(s, outcomes, i) is LinkTemp && outcomes[i] is Done);
        }
    }
}

/// No lock file is written, read or removed before the guard file is locked.
pub proof fn guard_comes_first(
    operation: Seq<char>,
    paths: LockPathsView,
    outcomes: Seq<StepOutcomeView>,
)
    requires
        possible(file_lock::initial(operation, paths), outcomes),
    ensures
        ({
            let s = file_lock::initial(operation, paths);
            let step = run(s, outcomes).step;
            before_guard(step) || guarded(s, outcomes) || step is Finished
        }),
        run(file_lock::initial(operation, paths), outcomes).step matches LockStepView::Finished(
            Ok(_),
        ) ==> guarded(file_lock::initial(operation, paths), outcomes),
    decreases outcomes.len(),
{
    if outcomes.len() > 0 {
        let s = file_lock::initial(operation, paths);
        let before = outcomes.drop_last();
        let n = before.len() as int;
        guard_comes_first(operation, paths, before);
        assert(outcomes.take(n) == before);
        assert(step_at(s, outcomes, n) == run(s, before).step);
        if guarded(s, before) {
            let i = choose|i: int|
                0 <= i < before.len() && (#[trigger] step_at(s, before, i)) is LockGuard
                    && before[i] is Done;
            lemma_step_at_prefix(s, outcomes, n, i);
            assert(step_at(s, outcomes, i) is LockGuard && outcomes[i] is Done);
        }
    }
}

/// A lock file is removed only after its text was read, named a process, and the system said
/// that there is no such process.
pub proof fn only_a_dead_holders_lock_is_removed(
    operation: Seq<char>,
    paths: LockPathsView,
    outcomes: Seq<StepOutcomeView>,
)
    requires
        possible(file_lock::initial(operation, paths), outcomes),
        run(file_lock::initial(operation, paths), outcomes).step is RemoveStale,
    ensures
        ({
            let s = file_lock::initial(operation, paths);
            let n = outcomes.len() as int;
            &&& n >= 2
            &&& step_at(s, outcomes, n - 2) is ReadLock
            &&& outcomes[n - 2] matches StepOutcomeView::Contents(text)
                && lock_metadata::metadata_of_text(text) matches Ok(holder) && step_at(
                s,
                outcomes,
                n - 1,
            ) == LockStepView::ProbeHolder(holder)
            &&& outcomes[n - 1] matches StepOutcomeView::Errno(errno)
                && errno::means_no_such_process(errno)
        }),
{
    let s = file_lock::initial(operation, paths);
    let n = outcomes.len() as int;
    let one_less = outcomes.drop_last();
    assert(outcomes.take(n - 1) == one_less);
    assert(possible(s, one_less));
    assert(run(s, one_less).step is ProbeHolder);
    assert(one_less.len() > 0);
    let two_less = one_less.drop_last();
    assert(outcomes.take(n - 2) == two_less);
    assert(possible(s, two_less));
    assert(run(s, two_less).step is ReadLock);
}

/// The lock file is tried at most three times.
pub proof fn attempts_are_limited(
    operation: Seq<char>,
    paths: LockPathsView,
    outcomes: Seq<StepOutcomeView>,
)
    requires
        possible(file_lock::initial(operation, paths), outcomes),
    ensures
        links_tried(file_lock::initial(operation, paths), outcomes) <= 3,
{
    lemma_attempts(operation, paths, outcomes);
}

proof fn lemma_attempts(
    operation: Seq<char>,
    paths: LockPathsView,
    outcomes: Seq<StepOutcomeView>,
)
    requires
        possible(file_lock::initial(operation, paths), outcomes),
    ensures
        ({
            let s = file_lock::initial(operation, paths);
            let now = run(s, outcomes);
            let links = links_tried(s, outcomes);
            match now.step {
                LockStepView::Finished(_) => links <= 3,
                LockStepView::RemoveTemp(_)
                | LockStepView::ShareLock
                | LockStepView::ReadLock
                | LockStepView::ProbeHolder(_)
                | LockStepView::RemoveStale => now.attempts_left >= 1 && links + now.attempts_left
                    == 4,
                _ => now.attempts_left >= 1 && links + now.attempts_left == 3,
            }
        }),
    decreases outcomes.len(),
{
    if outcomes.len() > 0 {
        lemma_attempts(operation, paths, outcomes.drop_last());
    }
}

/// The temporary files that are left are those whose removal failed, and the one that the
/// attempt works with or could not write or flush. All others were removed.
pub proof fn temporary_files_are_removed(
    operation: Seq<char>,
    paths: LockPathsView,
    outcomes: Seq<StepOutcomeView>,
)
    requires
        possible(file_lock::initial(operation, paths), outcomes),
    ensures
        ({
            let s = file_lock::initial(operation, paths);
            temps_left(s, outcomes) == removals_failed(s, outcomes) + if temp_not_dealt_with(
                s,
                outcomes,
            ) {
                1nat
            } else {
                0nat
            }
        }),
    decreases outcomes.len(),
{
    if outcomes.len() > 0 {
        let s = file_lock::initial(operation, paths);
        let before = outcomes.drop_last();
        let n = before.len() as int;
        temporary_files_are_removed(operation, paths, before);
        assert(outcomes.take(n) == before);
        assert(step_at(s, outcomes, n) == run(s, before).step);
        if before.len() > 0 {
            lemma_step_at_prefix(s, outcomes, n, n - 1);
            let earlier = before.drop_last();
            assert(before.take(n - 1) == earlier);
            assert(run(s, before) == run(s, earlier).next(before.last()));
        }
    }
}

/// An acquisition in which nothing fails ends with the lock. It never looks for a holder.
pub proof fn free_lock_is_granted(
    operation: Seq<char>,
    paths: LockPathsView,
    outcomes: Seq<StepOutcomeView>,
)
    requires
        possible(file_lock::initial(operation, paths), outcomes),
        forall|i: int|
            0 <= i < outcomes.len() ==> !(#[trigger] outcomes[i] is Failed) && !(outcomes[i]
                is Errno),
    ensures
        match run(file_lock::initial(operation, paths), outcomes).step {
            LockStepView::Finished(result) => result == Ok::<Seq<char>, LockErrorView>(
                paths.lock_path,
            ),
            LockStepView::RemoveTemp(Err(_))
            | LockStepView::ReadLock
            | LockStepView::ProbeHolder(_)
            | LockStepView::RemoveStale => false,
            _ => true,
        },
    decreases outcomes.len(),
{
    if outcomes.len() > 0 {
        let before = outcomes.drop_last();
        assert(outcomes.last() == outcomes[before.len() as int]);
        assert forall|i: int| 0 <= i < before.len() implies !(#[trigger] before[i] is Failed) && !(
        before[i] is Errno) by {
            assert(before[i] == outcomes[i]);
        }
        free_lock_is_granted(operation, paths, before);
        acquisition_keeps_its_paths(operation, paths, before);
    }
}

/// Whether an outcome leaves the way to the lock open. The name of a temporary file may be taken
/// if another may be tried. There may be a lock file if there are attempts left, it names a
/// holder that does not exist, and it can be removed; it may also vanish by itself. That a
/// temporary file is not removed does not matter. No other step fails.
pub open spec fn leaves_way_open(now: LockAcquisitionView, outcome: StepOutcomeView) -> bool {
    match now.step {
        LockStepView::CreateTemp(temp, _) => outcome matches StepOutcomeView::Failed(failure)
            ==> failure.kind == IoErrorKind::AlreadyExists && temp.tries_left > 1,
        LockStepView::LinkTemp => outcome matches StepOutcomeView::Failed(failure) ==> failure.kind
            == IoErrorKind::AlreadyExists && now.attempts_left > 1,
        LockStepView::RemoveTemp(_) => true,
        LockStepView::ReadLock => match outcome {
            StepOutcomeView::Failed(failure) => failure.kind == IoErrorKind::NotFound,
            StepOutcomeView::Contents(text) => lock_metadata::metadata_of_text(text) is Ok,
            _ => false,
        },
        LockStepView::ProbeHolder(_) => outcome matches StepOutcomeView::Errno(errno)
            && errno::means_no_such_process(errno),
        LockStepView::RemoveStale => outcome matches StepOutcomeView::Failed(failure)
            ==> failure.kind == IoErrorKind::NotFound,
        _ => !(outcome is Failed) && !(outcome is Errno),
    }
}

/// Whether nothing stands in the way of the lock in a run.
pub open spec fn nothing_in_the_way(
    s: LockAcquisitionView,
    outcomes: Seq<StepOutcomeView>,
) -> bool
    decreases outcomes.len(),
{
    outcomes.len() > 0 ==> {
        &&& nothing_in_the_way(s, outcomes.drop_last())
        &&& leaves_way_open(run(s, outcomes.drop_last()), outcomes.last())
    }
}

/// Whether an acquisition has the lock or may still get it: if it meets a lock file, there is
/// an attempt left.
pub open spec fn on_the_way(now: LockAcquisitionView) -> bool {
    match now.step {
        LockStepView::Finished(result) => result == Ok::<Seq<char>, LockErrorView>(
            now.paths.lock_path,
        ),
        LockStepView::RemoveTemp(Err(failure)) => failure.kind == IoErrorKind::AlreadyExists
            && now.attempts_left > 1,
        LockStepView::ReadLock
        | LockStepView::ProbeHolder(_)
        | LockStepView::RemoveStale => now.attempts_left > 1,
        _ => true,
    }
}

proof fn lemma_way_stays_open(now: LockAcquisitionView, outcome: StepOutcomeView)
    requires
        on_the_way(now),
        file_lock::fits(now.step, outcome),
        leaves_way_open(now, outcome),
    ensures
        on_the_way(now.next(outcome)),
{
}

proof fn lemma_run_on_the_way(s: LockAcquisitionView, outcomes: Seq<StepOutcomeView>)
    requires
        on_the_way(s),
        possible(s, outcomes),
        nothing_in_the_way(s, outcomes),
    ensures
        on_the_way(run(s, outcomes)),
    decreases outcomes.len(),
{
    if outcomes.len() > 0 {
        lemma_run_on_the_way(s, outcomes.drop_last());
        lemma_way_stays_open(run(s, outcomes.drop_last()), outcomes.last());
    }
}

/// An acquisition that nothing stands in the way of ends with the lock, also if it first has to
/// replace the lock file of a process that is gone, or two such files one after the other.
pub proof fn obtainable_lock_is_granted(
    operation: Seq<char>,
    paths: LockPathsView,
    outcomes: Seq<StepOutcomeView>,
)
    requires
        possible(file_lock::initial(operation, paths), outcomes),
        nothing_in_the_way(file_lock::initial(operation, paths), outcomes),
        run(file_lock::initial(operation, paths), outcomes).step is Finished,
    ensures
        run(file_lock::initial(operation, paths), outcomes).step == LockStepView::Finished(
            Ok(paths.lock_path),
        ),
{
    lemma_run_on_the_way(file_lock::initial(operation, paths), outcomes);
    acquisition_keeps_its_paths(operation, paths, outcomes);
}

/// A process that reads the lock file that another one wrote asks for that process, and as
/// long as it exists the lock is refused with a message that names it.
pub proof fn live_holder_keeps_the_lock(
    s: LockAcquisitionView,
    holder_operation: Seq<char>,
    holder: ProcessIdentity,
    probe: StepOutcomeView,
)
    requires
        s.step is ReadLock,
        holder.unix_seconds is Some,
        probe is Done || probe is Errno,
        probe matches StepOutcomeView::Errno(errno) ==> !errno::means_no_such_process(errno),
    ensures
        ({
            let text = lock_metadata::own_metadata(holder_operation, holder).file_text();
            let outcomes = seq![StepOutcomeView::Contents(text), probe];
            &&& possible(s, outcomes)
            &&& run(s, outcomes).step matches LockStepView::Finished(Err(LockErrorView::Held(m)))
                && m.pid == holder.pid && m.created_unix == Some(
                holder.unix_seconds->0 as nat,
            ) && LockErrorView::Held(m).text() == file_lock::contention(m.holder_text())
        }),
{
    lock_text_laws::own_lock_file_reads_back(holder_operation, holder);
    let text = lock_metadata::own_metadata(holder_operation, holder).file_text();
    let outcomes = seq![StepOutcomeView::Contents(text), probe];
    let first = outcomes.drop_last();
    assert(first.drop_last() == Seq::<StepOutcomeView>::empty());
    assert(first.last() == StepOutcomeView::Contents(text));
    assert(run(s, first.drop_last()) == s);
    assert(possible(s, first.drop_last()));
    assert(run(s, first) == s.next(StepOutcomeView::Contents(text)));
    assert(possible(s, first));
}

/// Whether the outcomes of a run are those of a machine on which `holder` holds the lock all
/// along: the lock file is there and holds the text that the holder wrote, though it may not be
/// readable, and the holder exists.
pub open spec fn held_throughout(
    s: LockAcquisitionView,
    outcomes: Seq<StepOutcomeView>,
    holder_operation: Seq<char>,
    holder: ProcessIdentity,
) -> bool {
    let text = lock_metadata::own_metadata(holder_operation, holder).file_text();
    forall|i: int|
        #![trigger outcomes[i]]
        0 <= i < outcomes.len() ==> match step_at(s, outcomes, i) {
            LockStepView::LinkTemp => outcomes[i] is Failed,
            LockStepView::ReadLock => outcomes[i] == StepOutcomeView::Contents(text) || (
            outcomes[i] matches StepOutcomeView::Failed(failure) && failure.kind
                != IoErrorKind::NotFound),
            LockStepView::ProbeHolder(m) => m.pid == holder.pid ==> !(
            outcomes[i] matches StepOutcomeView::Errno(errno) && errno::means_no_such_process(
                errno,
            )),
            _ => true,
        }
}

/// While a live process holds the lock, no other acquisition takes it, nor removes the lock
/// file.
pub proof fn lock_excludes_others(
    operation: Seq<char>,
    paths: LockPathsView,
    outcomes: Seq<StepOutcomeView>,
    holder_operation: Seq<char>,
    holder: ProcessIdentity,
)
    requires
        possible(file_lock::initial(operation, paths), outcomes),
        held_throughout(file_lock::initial(operation, paths), outcomes, holder_operation, holder),
    ensures
        ({
            let step = run(file_lock::initial(operation, paths), outcomes).step;
            &&& !(step matches LockStepView::Finished(Ok(_)))
            &&& !(step is RemoveStale)
            &&& !(step is ShareLock)
            &&& !(step matches LockStepView::RemoveTemp(Ok(_)))
            &&& step matches LockStepView::ProbeHolder(m) ==> m.pid == holder.pid
        }),
    decreases outcomes.len(),
{
    if outcomes.len() > 0 {
        let s = file_lock::initial(operation, paths);
        let before = outcomes.drop_last();
        let n = before.len() as int;
        assert(outcomes.take(n) == before);
        assert forall|i: int| #![trigger before[i]] 0 <= i < n implies before[i] == outcomes[i]
            && step_at(s, before, i) == step_at(s, outcomes, i) by {
            lemma_step_at_prefix(s, outcomes, n, i);
        }
        assert(held_throughout(s, before, holder_operation, holder));
        lock_excludes_others(operation, paths, before, holder_operation, holder);
        lock_text_laws::own_lock_file_names_no_one_else(holder_operation, holder);
        assert(step_at(s, outcomes, n) == run(s, before).step);
        assert(outcomes[n] == outcomes.last());
    }
}

/// Whether nothing went wrong in a run but what a lock that is held leads to: a step failed only
/// if it links to the lock file that is there, reads it, or removes the temporary file, and
/// only the question for the holder had an error number.
pub open spec fn otherwise_smooth(s: LockAcquisitionView, outcomes: Seq<StepOutcomeView>) -> bool {
    forall|i: int|
        #![trigger outcomes[i]]
        0 <= i < outcomes.len() ==> match outcomes[i] {
            StepOutcomeView::Failed(failure) => match step_at(s, outcomes, i) {
                LockStepView::LinkTemp => failure.kind == IoErrorKind::AlreadyExists,
                LockStepView::ReadLock | LockStepView::RemoveTemp(_) => true,
                _ => false,
            },
            StepOutcomeView::Errno(_) => step_at(s, outcomes, i) is ProbeHolder,
            _ => true,
        }
}

/// Whether an acquisition of a lock that `holder` holds is refused with the message for that,
/// if it is finished, and has met the lock file, if the link failed.
spec fn refused_as_held(step: LockStepView, holder: ProcessIdentity) -> bool {
    match step {
        LockStepView::RemoveTemp(Err(failure)) => failure.kind == IoErrorKind::AlreadyExists,
        LockStepView::Finished(Ok(_)) => false,
        LockStepView::Finished(Err(e)) => match e {
            LockErrorView::Held(m) => m.pid == holder.pid && e.text() == file_lock::contention(
                m.holder_text(),
            ),
            LockErrorView::Unreadable(cause) => e.text() == file_lock::contention(
                "lock metadata unreadable: "@ + cause.text(),
            ),
            _ => false,
        },
        _ => true,
    }
}

proof fn lemma_held_step(
    now: LockAcquisitionView,
    outcome: StepOutcomeView,
    text: Seq<char>,
    holder: ProcessIdentity,
)
    requires
        file_lock::fits(now.step, outcome),
        refused_as_held(now.step, holder),
        !(now.step is RemoveStale),
        !(now.step is ShareLock),
        !(now.step matches LockStepView::RemoveTemp(Ok(_))),
        now.step matches LockStepView::ProbeHolder(m) ==> m.pid == holder.pid && !(
        outcome matches StepOutcomeView::Errno(errno) && errno::means_no_such_process(errno)),
        now.step is LinkTemp ==> outcome is Failed,
        now.step is ReadLock ==> outcome == StepOutcomeView::Contents(text) || (
        outcome matches StepOutcomeView::Failed(failure) && failure.kind != IoErrorKind::NotFound),
        outcome matches StepOutcomeView::Failed(failure) ==> match now.step {
            LockStepView::LinkTemp => failure.kind == IoErrorKind::AlreadyExists,
            LockStepView::ReadLock | LockStepView::RemoveTemp(_) => true,
            _ => false,
        },
        outcome is Errno ==> now.step is ProbeHolder,
    ensures
        refused_as_held(now.next(outcome).step, holder),
{
}

/// While a live process holds the lock, and nothing else goes wrong, an acquisition that ends
/// is refused with the message of a lock that another process holds.
pub proof fn held_lock_is_contention(
    operation: Seq<char>,
    paths: LockPathsView,
    outcomes: Seq<StepOutcomeView>,
    holder_operation: Seq<char>,
    holder: ProcessIdentity,
)
    requires
        possible(file_lock::initial(operation, paths), outcomes),
        held_throughout(file_lock::initial(operation, paths), outcomes, holder_operation, holder),
        otherwise_smooth(file_lock::initial(operation, paths), outcomes),
    ensures
        match run(file_lock::initial(operation, paths), outcomes).step {
            LockStepView::RemoveTemp(Err(failure)) => failure.kind == IoErrorKind::AlreadyExists,
            LockStepView::Finished(Ok(_)) => false,
            LockStepView::Finished(Err(e)) => match e {
                LockErrorView::Held(m) => m.pid == holder.pid && e.text() == file_lock::contention(
                    m.holder_text(),
                ),
                LockErrorView::Unreadable(cause) => e.text() == file_lock::contention(
                    "lock metadata unreadable: "@ + cause.text(),
                ),
                _ => false,
            },
            _ => true,
        },
    decreases outcomes.len(),
{
    if outcomes.len() > 0 {
        let s = file_lock::initial(operation, paths);
        let before = outcomes.drop_last();
        let n = before.len() as int;
        assert(outcomes.take(n) == before);
        assert forall|i: int| #![trigger before[i]] 0 <= i < n implies before[i] == outcomes[i]
            && step_at(s, before, i) == step_at(s, outcomes, i) by {
            lemma_step_at_prefix(s, outcomes, n, i);
        }
        assert(held_throughout(s, before, holder_operation, holder));
        assert(otherwise_smooth(s, before));
        held_lock_is_contention(operation, paths, before, holder_operation, holder);
        lock_excludes_others(operation, paths, before, holder_operation, holder);
        assert(step_at(s, outcomes, n) == run(s, before).step);
        assert(outcomes[n] == outcomes.last());
        lemma_held_step(
            run(s, before),
            outcomes.last(),
            lock_metadata::own_metadata(holder_operation, holder).file_text(),
            holder,
        );
    }
}

/// Whether `text` is what the process that took part in this run writes into its lock file.
pub open spec fn is_own_text(
    operation: Seq<char>,
    s: LockAcquisitionView,
    outcomes: Seq<StepOutcomeView>,
    text: Seq<char>,
) -> bool {
    exists|i: int|
        0 <= i < outcomes.len() && (#[trigger] step_at(s, outcomes, i)) is Identify && (
        outcomes[i] matches StepOutcomeView::Start(start) && text == lock_metadata::own_metadata(
            operation,
            start.identity,
        ).file_text())
}

/// What is written to the file that becomes the lock file is the metadata of the process
/// itself, with the operation that the lock was asked for.
pub proof fn lock_file_holds_own_metadata(
    operation: Seq<char>,
    paths: LockPathsView,
    outcomes: Seq<StepOutcomeView>,
)
    requires
        possible(file_lock::initial(operation, paths), outcomes),
    ensures
        ({
            let s = file_lock::initial(operation, paths);
            match run(s, outcomes).step {
                LockStepView::NameTemp(temp) => is_own_text(operation, s, outcomes, temp.text),
                LockStepView::CreateTemp(temp, _) => is_own_text(operation, s, outcomes, temp.text),
                LockStepView::WriteTemp(text) => is_own_text(operation, s, outcomes, text),
                _ => true,
            }
        }),
    decreases outcomes.len(),
{
    if outcomes.len() > 0 {
        let s = file_lock::initial(operation, paths);
        let before = outcomes.drop_last();
        let n = before.len() as int;
        lock_file_holds_own_metadata(operation, paths, before);
        acquisition_keeps_its_paths(operation, paths, before);
        assert(outcomes.take(n) == before);
        assert(step_at(s, outcomes, n) == run(s, before).step);
        assert(outcomes[n] == outcomes.last());
        assert forall|text: Seq<char>|
            is_own_text(operation, s, before, text) implies #[trigger] is_own_text(
            operation,
            s,
            outcomes,
            text,
        ) by {
            let i = choose|i: int|
                0 <= i < before.len() && (#[trigger] step_at(s, before, i)) is Identify && (
                before[i] matches StepOutcomeView::Start(start) && text
                    == lock_metadata::own_metadata(operation, start.identity).file_text());
            lemma_step_at_prefix(s, outcomes, n, i);
            assert(step_at(s, outcomes, i) is Identify);
        }
    }
}

/// A lock file that names a process that is gone is replaced: it is removed and the lock file
/// is tried again, unless this was the last attempt.
pub proof fn stale_lock_is_replaced(
    s: LockAcquisitionView,
    text: Seq<char>,
    errno: i32,
)
    requires
        s.step is ReadLock,
        s.attempts_left > 1,
        lock_metadata::metadata_of_text(text) is Ok,
        errno::means_no_such_process(errno),
    ensures
        ({
            let read = s.next(StepOutcomeView::Contents(text));
            let probed = read.next(StepOutcomeView::Errno(errno));
            let removed = probed.next(StepOutcomeView::Done);
            &&& read.step is ProbeHolder
            &&& probed.step is RemoveStale
            &&& removed.step is Identify
            &&& removed.attempts_left == s.attempts_left - 1
        }),
{
}

/// A lock file whose text names no holder counts as held: the lock is refused, and the file
/// stays.
pub proof fn malformed_lock_is_contention(s: LockAcquisitionView, text: Seq<char>)
    requires
        s.step is ReadLock,
        lock_metadata::metadata_of_text(text) is Err,
    ensures
        ({
            let e = lock_metadata::metadata_of_text(text)->Err_0;
            let end = s.next(StepOutcomeView::Contents(text));
            &&& end.step == LockStepView::Finished(Err(LockErrorView::Unreadable(e)))
            &&& LockErrorView::Unreadable(e).text() == file_lock::contention(
                "lock metadata unreadable: "@ + e.text(),
            )
        }),
{
}

/// What stands before and after the last dot of a text is told by the text.
proof fn lemma_last_dot(a: Seq<char>, x: Seq<char>, b: Seq<char>, y: Seq<char>)
    requires
        a + seq!['.'] + x == b + seq!['.'] + y,
        forall|i: int| 0 <= i < x.len() ==> #[trigger] x[i] != '.',
        forall|i: int| 0 <= i < y.len() ==> #[trigger] y[i] != '.',
    ensures
        a == b,
        x == y,
{
    let s = a + seq!['.'] + x;
    let t = b + seq!['.'] + y;
    assert(s[a.len() as int] == '.');
    assert(t[b.len() as int] == '.');
    assert(s.len() == a.len() + 1 + x.len());
    assert(t.len() == b.len() + 1 + y.len());
    if a.len() < b.len() {
        assert(s[b.len() as int] == x[b.len() - a.len() - 1]);
    }
    if b.len() < a.len() {
        assert(t[a.len() as int] == y[a.len() - b.len() - 1]);
    }
    assert(a == s.take(a.len() as int));
    assert(b == t.take(b.len() as int));
    assert(x == s.skip(a.len() as int + 1));
    assert(y == t.skip(b.len() as int + 1));
}

/// Temporary files have different names unless process, time and sequence number all agree. So
/// as long as a process draws different sequence numbers, it never tries a name twice.
pub proof fn temporary_names_differ(
    process_id: nat,
    unix_nanos: nat,
    sequence: nat,
    other_process_id: nat,
    other_unix_nanos: nat,
    other_sequence: nat,
)
    requires
        (process_id, unix_nanos, sequence) != (other_process_id, other_unix_nanos, other_sequence),
    ensures
        file_lock::temp_name(process_id, unix_nanos, sequence) != file_lock::temp_name(
            other_process_id,
            other_unix_nanos,
            other_sequence,
        ),
{
    let name = file_lock::temp_name(process_id, unix_nanos, sequence);
    let other = file_lock::temp_name(other_process_id, other_unix_nanos, other_sequence);
    if name == other {
        reveal_strlit(".");
        assert("."@ == seq!['.']);
        let start = ".lqos_overrides.lock."@;
        let end = ".tmp"@;
        let p = decimal::decimal(process_id);
        let t = decimal::decimal(unix_nanos);
        let n = decimal::decimal(sequence);
        let other_p = decimal::decimal(other_process_id);
        let other_t = decimal::decimal(other_unix_nanos);
        let other_n = decimal::decimal(other_sequence);
        decimal::lemma_decimal_digits(unix_nanos);
        decimal::lemma_decimal_digits(sequence);
        decimal::lemma_decimal_digits(other_unix_nanos);
        decimal::lemma_decimal_digits(other_sequence);
        let trunk = start + p + seq!['.'] + t;
        let other_trunk = start + other_p + seq!['.'] + other_t;
        assert(name == trunk + seq!['.'] + n + end);
        assert(other == other_trunk + seq!['.'] + other_n + end);
        assert(name.take(name.len() - end.len()) == trunk + seq!['.'] + n);
        assert(other.take(other.len() - end.len()) == other_trunk + seq!['.'] + other_n);
        lemma_last_dot(trunk, n, other_trunk, other_n);
        lemma_last_dot(start + p, t, start + other_p, other_t);
        assert((start + p).skip(start.len() as int) == p);
        assert((start + other_p).skip(start.len() as int) == other_p);
        decimal::lemma_decimal_tells_apart(process_id, other_process_id);
        decimal::lemma_decimal_tells_apart(unix_nanos, other_unix_nanos);
        decimal::lemma_decimal_tells_apart(sequence, other_sequence);
    }
}

/// Within as many draws as there are numbers, the sequence repeats none.
pub proof fn draws_differ(earlier: nat, later: nat)
    requires
        earlier < later <= earlier + u64::MAX,
    ensures
        file_lock::drawn(earlier) != file_lock::drawn(later),
{
    lemma_drawn(earlier);
    lemma_drawn(later);
}

proof fn lemma_drawn(earlier: nat)
    ensures
        file_lock::drawn(earlier) == earlier % 0x1_0000_0000_0000_0000,
    decreases earlier,
{
    if earlier > 0 {
        lemma_drawn((earlier - 1) as nat);
    }
}

/// A process never tries the same name for two temporary files, be it in one acquisition or in
/// two, as long as fewer numbers were drawn between them than there are.
pub proof fn process_tries_no_name_twice(
    s: LockAcquisitionView,
    outcomes: Seq<StepOutcomeView>,
    earlier: nat,
    other: LockAcquisitionView,
    other_outcomes: Seq<StepOutcomeView>,
    later: nat,
)
    requires
        outcomes.len() > 0,
        other_outcomes.len() > 0,
        step_at(s, outcomes, outcomes.len() - 1) is NameTemp,
        step_at(other, other_outcomes, other_outcomes.len() - 1) is NameTemp,
        outcomes.last() == StepOutcomeView::Sequence(file_lock::drawn(earlier)),
        other_outcomes.last() == StepOutcomeView::Sequence(file_lock::drawn(later)),
        earlier < later <= earlier + u64::MAX,
    ensures
        run(s, outcomes).step matches LockStepView::CreateTemp(_, name) && (run(
            other,
            other_outcomes,
        ).step matches LockStepView::CreateTemp(_, other_name) && name != other_name),
{
    assert(outcomes.take(outcomes.len() - 1) == outcomes.drop_last());
    assert(other_outcomes.take(other_outcomes.len() - 1) == other_outcomes.drop_last());
    draws_differ(earlier, later);
    let temp = run(s, outcomes.drop_last()).step->NameTemp_0;
    let other_temp = run(other, other_outcomes.drop_last()).step->NameTemp_0;
    temporary_names_differ(
        temp.process_id,
        temp.unix_nanos,
        file_lock::drawn(earlier),
        other_temp.process_id,
        other_temp.unix_nanos,
        file_lock::drawn(later),
    );
}

/// Whether these outcomes are those of drawing a number and finding the name taken, over and
/// over.
pub open spec fn names_taken(outcomes: Seq<StepOutcomeView>) -> bool {
    forall|i: int|
        #![trigger outcomes[i]]
        0 <= i < outcomes.len() ==> if i % 2 == 0 {
            outcomes[i] is Sequence
        } else {
            outcomes[i] matches StepOutcomeView::Failed(failure) && failure.kind
                == IoErrorKind::AlreadyExists
        }
}

proof fn lemma_taken_names(
    s: LockAcquisitionView,
    temp: TempFileView,
    outcomes: Seq<StepOutcomeView>,
    tries: nat,
)
    requires
        s.step == LockStepView::NameTemp(temp),
        tries <= temp.tries_left,
        temp.tries_left >= 1,
        outcomes.len() == 2 * tries,
        names_taken(outcomes),
    ensures
        possible(s, outcomes),
        run(s, outcomes) == if tries < temp.tries_left {
            s.at(
                LockStepView::NameTemp(
                    TempFileView { tries_left: (temp.tries_left - tries) as nat, ..temp },
                ),
            )
        } else {
            s.refused(LockErrorView::NoTemporaryName)
        },
    decreases tries,
{
    if tries > 0 {
        let one_less = outcomes.drop_last();
        let two_less = one_less.drop_last();
        assert forall|i: int| #![trigger two_less[i]] 0 <= i < two_less.len() implies two_less[i]
            == outcomes[i] by {}
        lemma_taken_names(s, temp, two_less, (tries - 1) as nat);
        assert(one_less.last() == outcomes[outcomes.len() - 2]);
        assert(outcomes.last() == outcomes[outcomes.len() - 1]);
        assert(run(s, one_less) == run(s, two_less).next(one_less.last()));
        assert(possible(s, one_less));
    }
}

/// An attempt whose names are all taken goes on to the next name, keeping the text for the file,
/// and gives up after the last.
pub proof fn taken_names_run_out(
    s: LockAcquisitionView,
    start: StepOutcomeView,
    outcomes: Seq<StepOutcomeView>,
    tries: nat,
)
    requires
        s.step is Identify,
        start is Start,
        tries <= file_lock::LOCK_TEMP_CREATE_ATTEMPTS,
        outcomes.len() == 2 * tries,
        names_taken(outcomes),
    ensures
        ({
            let named = s.next(start);
            let end = run(named, outcomes);
            &&& possible(named, outcomes)
            &&& if tries < file_lock::LOCK_TEMP_CREATE_ATTEMPTS {
                &&& end.step matches LockStepView::NameTemp(temp) && temp.text
                    == named.step->NameTemp_0.text && temp.process_id
                    == named.step->NameTemp_0.process_id && temp.unix_nanos
                    == named.step->NameTemp_0.unix_nanos
            } else {
                end.step == LockStepView::Finished(Err(LockErrorView::NoTemporaryName))
            }
        }),
{
    let named = s.next(start);
    lemma_taken_names(named, named.step->NameTemp_0, outcomes, tries);
}

/// A temporary file that cannot be created for any reason but its name ends the acquisition
/// with that failure.
pub proof fn failure_to_create_is_passed_on(s: LockAcquisitionView, failure: IoFailureView)
    requires
        s.step is CreateTemp,
        failure.kind != IoErrorKind::AlreadyExists,
    ensures
        s.next(StepOutcomeView::Failed(failure)).step == LockStepView::Finished(
            Err(LockErrorView::Io(failure)),
        ),
{
}

} // verus!
