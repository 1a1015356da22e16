//! What taking the lock is for: which step has which reason, and what becomes of a machine on
//! which the steps are performed.

use crate::{acquisition_laws, decimal, errno, file_lock, lock_metadata};
use crate::file_lock::{
    contention_message, guard_failure_message, next_temp_sequence, temp_lock_file_name, AttemptStart, FileLock, LockAcquisition, LockAcquisitionView, LockError, LockErrorView,
    LockPathsView, LockStepView, StepOutcome, StepOutcomeView, TempFileView,
};
use crate::lock_metadata::{
    IoErrorKind, IoFailure, IoFailureView, LockFileError, LockFileErrorView, LockMetadata,
    LockMetadataView,
};
use vstd::prelude::*;

verus! {

/// Whether `outcome` is a failure of this kind.
pub open spec fn failed_with(outcome: StepOutcomeView, kind: IoErrorKind) -> bool {
    outcome matches StepOutcomeView::Failed(failure) && failure.kind == kind
}

/// Whether `step` had the outcome that leads to a lock file being tried again: it vanished
/// before it was read, or it was removed, by this process or by another.
pub open spec fn lock_file_went_away(step: LockStepView, outcome: StepOutcomeView) -> bool {
    ||| step is ReadLock && failed_with(outcome, IoErrorKind::NotFound)
    ||| step is RemoveStale && outcome is Done
    ||| step is RemoveStale && failed_with(outcome, IoErrorKind::NotFound)
}

/// Whether the step `now` has its reason in what came of the step before: the only steps and
/// outcomes that may lead to it.
pub open spec fn has_its_reason(
    before: LockAcquisitionView,
    outcome: StepOutcomeView,
    now: LockAcquisitionView,
) -> bool {
    let step = before.step;
    match now.step {
        LockStepView::ProbeDirectory => false,
        LockStepView::CreateDirectory => step is ProbeDirectory && outcome
            == StepOutcomeView::Answer(false),
        LockStepView::ShareDirectory => step is CreateDirectory && outcome is Done,
        LockStepView::OpenGuard => {
            ||| step is ProbeDirectory && outcome == StepOutcomeView::Answer(true)
            ||| step is ShareDirectory && outcome is Done
        },
        LockStepView::ShareGuard => step is OpenGuard && outcome is Done,
        LockStepView::LockGuard => step is ShareGuard && outcome is Done,
        LockStepView::Identify => {
            ||| step is LockGuard && outcome is Done
            ||| lock_file_went_away(step, outcome) && before.attempts_left > 1
        },
        LockStepView::NameTemp(temp) => {
            ||| step is Identify && (outcome matches StepOutcomeView::Start(start)
                && starts_with_all_names(before.operation, start, temp))
            ||| (step matches LockStepView::CreateTemp(earlier, _) && earlier.tries_left > 1
                && failed_with(outcome, IoErrorKind::AlreadyExists) && temp.text == earlier.text
                && temp.process_id == earlier.process_id && temp.unix_nanos == earlier.unix_nanos
                && temp.tries_left == earlier.tries_left - 1)
        },
        LockStepView::CreateTemp(temp, name) => step == LockStepView::NameTemp(temp) && (
        outcome matches StepOutcomeView::Sequence(n) && name == ".lqos_overrides.lock."@
            + decimal::decimal(temp.process_id) + "."@ + decimal::decimal(temp.unix_nanos) + "."@
            + decimal::decimal(n) + ".tmp"@),
        LockStepView::WriteTemp(text) => outcome is Done && (
        step matches LockStepView::CreateTemp(temp, _) && text == temp.text),
        LockStepView::SyncTemp => step is WriteTemp && outcome is Done,
        LockStepView::LinkTemp => step is SyncTemp && outcome is Done,
        LockStepView::RemoveTemp(link) => step is LinkTemp && match link {
            Ok(_) => outcome is Done,
            Err(failure) => outcome == StepOutcomeView::Failed(failure),
        },
        LockStepView::ShareLock => step matches LockStepView::RemoveTemp(Ok(_)),
        LockStepView::ReadLock => step matches LockStepView::RemoveTemp(Err(failure))
            && failure.kind == IoErrorKind::AlreadyExists,
        LockStepView::ProbeHolder(holder) => step is ReadLock && (
        outcome matches StepOutcomeView::Contents(text) && lock_metadata::metadata_of_text(text)
            == Ok::<LockMetadataView, LockFileErrorView>(holder)),
        LockStepView::RemoveStale => step is ProbeHolder && outcome == StepOutcomeView::Errno(3),
        LockStepView::Finished(Ok(path)) => step is ShareLock && outcome is Done && path
            == before.paths.lock_path,
        LockStepView::Finished(Err(e)) => refused_for(before, outcome, e),
    }
}

/// Whether an attempt starts with this temporary file: the metadata of the process for the
/// operation as its text, the process id and the time for its name, and eight names to try.
pub open spec fn starts_with_all_names(
    operation: Seq<char>,
    start: AttemptStart,
    temp: TempFileView,
) -> bool {
    &&& temp.text == lock_metadata::own_metadata(operation, start.identity).file_text()
    &&& temp.process_id == start.process_id
    &&& temp.unix_nanos == match start.unix_nanos {
        Some(nanos) => nanos as int,
        None => 0,
    }
    &&& temp.tries_left == 8
}

/// Whether what came of a step is why the lock is refused with this error.
pub open spec fn refused_for(
    before: LockAcquisitionView,
    outcome: StepOutcomeView,
    e: LockErrorView,
) -> bool {
    let step = before.step;
    match e {
        LockErrorView::Io(failure) => {
            ||| outcome == StepOutcomeView::Failed(failure) && match step {
                LockStepView::CreateDirectory
                | LockStepView::ShareDirectory
                | LockStepView::OpenGuard
                | LockStepView::ShareGuard
                | LockStepView::WriteTemp(_)
                | LockStepView::SyncTemp
                | LockStepView::ShareLock => true,
                LockStepView::CreateTemp(_, _) => failure.kind != IoErrorKind::AlreadyExists,
                LockStepView::RemoveStale => failure.kind != IoErrorKind::NotFound,
                _ => false,
            }
            ||| step == LockStepView::RemoveTemp(Err(failure)) && failure.kind
                != IoErrorKind::AlreadyExists
        },
        LockErrorView::Guard(errno) => step is LockGuard && outcome == StepOutcomeView::Errno(
            errno,
        ),
        LockErrorView::NoTemporaryName => failed_with(outcome, IoErrorKind::AlreadyExists) && (
        step matches LockStepView::CreateTemp(temp, _) && temp.tries_left <= 1),
        LockErrorView::Unreadable(cause) => step is ReadLock && match outcome {
            StepOutcomeView::Contents(text) => lock_metadata::metadata_of_text(text) == Err::<
                LockMetadataView,
                LockFileErrorView,
            >(cause),
            StepOutcomeView::Failed(failure) => failure.kind != IoErrorKind::NotFound && cause
                == LockFileErrorView::Io(failure),
            _ => false,
        },
        LockErrorView::Held(holder) => step == LockStepView::ProbeHolder(holder) && outcome
            != StepOutcomeView::Errno(3),
        LockErrorView::StaleNotReplaced => lock_file_went_away(step, outcome)
            && before.attempts_left <= 1,
    }
}

/// Every step of an acquisition has its reason in the outcome of the step before. The directory
/// is created only if it is missing, a lock file is read only if the link met one, removed only
/// if its holder is gone, and the lock is granted only after the link. The operation and the
/// paths stay, and an attempt is used up exactly when the lock file is tried again.
pub proof fn every_step_has_its_reason(
    acquisition: LockAcquisition,
    outcome: StepOutcome,
    r: LockAcquisition,
)
    requires
        file_lock::fits(acquisition@.step, outcome@),
        call_ensures(LockAcquisition::advance, (acquisition, outcome), r),
    ensures
        has_its_reason(acquisition@, outcome@, r@),
        r@.operation == acquisition@.operation,
        r@.paths == acquisition@.paths,
        r@.attempts_left == if lock_file_went_away(acquisition@.step, outcome@) {
            if acquisition@.attempts_left > 1 {
                acquisition@.attempts_left - 1
            } else {
                0
            }
        } else {
            acquisition@.attempts_left as int
        },
{
    lemma_next_has_its_reason(acquisition@, outcome@);
}

proof fn lemma_next_has_its_reason(before: LockAcquisitionView, outcome: StepOutcomeView)
    requires
        file_lock::fits(before.step, outcome),
    ensures
        has_its_reason(before, outcome, before.next(outcome)),
{
}

/// A step that does something takes its success and its failure as outcomes; only a finished
/// acquisition takes none.
pub proof fn steps_take_their_outcomes(step: LockStepView, failure: IoFailureView, errno: i32)
    ensures
        match step {
            LockStepView::ProbeDirectory => file_lock::fits(step, StepOutcomeView::Answer(true))
                && file_lock::fits(step, StepOutcomeView::Answer(false)),
            LockStepView::LockGuard | LockStepView::ProbeHolder(_) => file_lock::fits(
                step,
                StepOutcomeView::Done,
            ) && file_lock::fits(step, StepOutcomeView::Errno(errno)),
            LockStepView::Identify => forall|start: AttemptStart| #[trigger]
                file_lock::fits(step, StepOutcomeView::Start(start)),
            LockStepView::NameTemp(_) => forall|n: nat| #[trigger]
                file_lock::fits(step, StepOutcomeView::Sequence(n)),
            LockStepView::ReadLock => file_lock::fits(step, StepOutcomeView::Failed(failure))
                && forall|text: Seq<char>| #[trigger]
                file_lock::fits(step, StepOutcomeView::Contents(text)),
            LockStepView::Finished(_) => true,
            _ => file_lock::fits(step, StepOutcomeView::Done) && file_lock::fits(
                step,
                StepOutcomeView::Failed(failure),
            ),
        },
{
}

/// An acquisition starts with the question for the directory, three attempts, and the paths and
/// the operation that it was given.
pub proof fn acquisition_starts_with_the_directory(
    operation: &str,
    lock_path: &str,
    lock_dir: &str,
    lock_dir_perms: &str,
    guard_path: &str,
    r: LockAcquisition,
)
    requires
        call_ensures(
            FileLock::new_at,
            (operation, lock_path, lock_dir, lock_dir_perms, guard_path),
            r,
        ),
    ensures
        r@.operation == operation@,
        r@.paths.lock_path == lock_path@,
        r@.paths.lock_dir == lock_dir@,
        r@.paths.lock_dir_perms == lock_dir_perms@,
        r@.paths.guard_path == guard_path@,
        r@.attempts_left == 3,
        r@.step is ProbeDirectory,
{
}

/// The lock of the override files is in the run directory of LibreQoS.
pub proof fn overrides_lock_is_in_the_run_directory(operation: &str, r: LockAcquisition)
    requires
        call_ensures(FileLock::new_for_operation, (operation,), r),
    ensures
        r@.operation == operation@,
        r@.paths.lock_path == "/run/lqos/lqos_overrides.lock"@,
        r@.paths.lock_dir == "/run/lqos"@,
        r@.paths.lock_dir_perms == "/run/lqos"@,
        r@.paths.guard_path == "/run/lqos/lqos_overrides.lock.guard"@,
        r@.attempts_left == 3,
        r@.step is ProbeDirectory,
{
}

/// A holder counts as gone exactly if the system says that there is no such process.
pub proof fn only_no_such_process_frees_the_lock(errno: Option<i32>, r: bool)
    requires
        call_ensures(FileLock::is_lock_valid, (errno,), r),
    ensures
        r <==> errno != Some(3i32),
{
}

/// A lock file counts as missing exactly if reading it failed because it is not there.
pub proof fn only_a_missing_file_counts_as_missing(e: LockFileError, r: bool)
    requires
        call_ensures(FileLock::is_not_found_error, (&e,), r),
    ensures
        r <==> (e matches LockFileError::Io(failure) && failure.kind is NotFound),
{
}

/// What is read of a lock file is what parsing its text gives, and a failure to read it is
/// passed on.
pub proof fn lock_file_is_read_and_parsed(
    read: Result<String, IoFailure>,
    text: &str,
    r: Result<LockMetadata, LockFileError>,
    parsed: Result<LockMetadata, LockFileError>,
)
    requires
        call_ensures(FileLock::read_lock_metadata, (read,), r),
        call_ensures(LockMetadata::parse, (text,), parsed),
        read matches Ok(contents) ==> contents@ == text@,
    ensures
        match read {
            Err(failure) => r == Err::<LockMetadata, LockFileError>(LockFileError::Io(failure)),
            Ok(_) => match parsed {
                Ok(metadata) => r matches Ok(m) && m@ == metadata@,
                Err(e) => r matches Err(f) && f@ == e@,
            },
        },
{
}

/// Who is refused is told why. A lock that is held, or whose file does not say who holds it, is
/// reported under the code for contention, with the holder or the fault; a file operation that
/// failed, with its own message.
pub proof fn refusal_says_why(e: LockError, r: String)
    requires
        call_ensures(LockError::message, (&e,), r),
    ensures
        match e {
            LockError::Io(failure) => r@ == failure.message@,
            LockError::Guard(raw) => r@ == "Unable to acquire LibreQoS overrides lock guard: "@
                + errno::errno_text(raw),
            LockError::NoTemporaryName => r@
                == "Unable to create a unique temporary LibreQoS overrides lock file after "@
                + decimal::decimal(8) + " attempts."@,
            LockError::Unreadable(cause) => r@ == "LQOS_OVERRIDES_LOCKED"@
                + ": The LibreQoS overrides files are locked by another process ("@ + (
            "lock metadata unreadable: "@ + cause@.text()) + ")."@,
            LockError::Held(holder) => r@ == "LQOS_OVERRIDES_LOCKED"@
                + ": The LibreQoS overrides files are locked by another process ("@
                + holder@.holder_text() + ")."@,
            LockError::StaleNotReplaced => r@
                == "Unable to acquire the LibreQoS overrides lock after replacing a stale lock."@,
        },
{
}

/// Whether a lock is held or the guard file cannot be locked, the message says so and then gives
/// the detail.
pub proof fn messages_give_their_detail(
    detail: &str,
    contention: String,
    guard: String,
)
    requires
        call_ensures(contention_message, (detail,), contention),
        call_ensures(guard_failure_message, (detail,), guard),
    ensures
        contention@ == "LQOS_OVERRIDES_LOCKED"@
            + ": The LibreQoS overrides files are locked by another process ("@ + detail@ + ")."@,
        guard@ == "Unable to acquire LibreQoS overrides lock guard: "@ + detail@,
{
}

/// The name of a temporary file holds the process id, the time and the sequence number, each in
/// decimal and set off by dots.
pub proof fn temporary_name_holds_three_numbers(
    process_id: u32,
    unix_nanos: u128,
    sequence: u64,
    r: String,
)
    requires
        call_ensures(temp_lock_file_name, (process_id, unix_nanos, sequence), r),
    ensures
        r@ == ".lqos_overrides.lock."@ + decimal::decimal(process_id as nat) + "."@
            + decimal::decimal(unix_nanos as nat) + "."@ + decimal::decimal(sequence as nat)
            + ".tmp"@,
{
}

/// The sequence goes up by one, and starts over after the largest number.
pub proof fn sequence_goes_up_by_one(sequence: u64, r: u64)
    requires
        call_ensures(next_temp_sequence, (sequence,), r),
    ensures
        sequence < u64::MAX ==> r == sequence + 1,
        sequence == u64::MAX ==> r == 0,
{
}

/// A machine on which an acquisition is performed: whether the lock directory is there, the
/// text of the lock file and of the temporary file if there are such files, which processes
/// exist, and who performs the acquisition.
#[verifier::ext_equal]
pub struct Machine {
    pub directory: bool,
    pub lock_file: Option<Seq<char>>,
    pub temp_file: Option<Seq<char>>,
    pub alive: spec_fn(int) -> bool,
    pub start: AttemptStart,
    pub sequence: nat,
}

/// An error of this kind.
pub open spec fn error_of(kind: IoErrorKind) -> StepOutcomeView {
    StepOutcomeView::Failed(IoFailureView { kind, message: seq![] })
}

impl Machine {
    /// What comes of a step on this machine. Creating a directory that is there fails, and so
    /// does creating a file without its directory, and linking over a file that is there.
    pub open spec fn outcome(self, step: LockStepView) -> StepOutcomeView {
        match step {
            LockStepView::ProbeDirectory => StepOutcomeView::Answer(self.directory),
            LockStepView::CreateDirectory => if self.directory {
                error_of(IoErrorKind::AlreadyExists)
            } else {
                StepOutcomeView::Done
            },
            LockStepView::OpenGuard | LockStepView::CreateTemp(_, _) => if self.directory {
                StepOutcomeView::Done
            } else {
                error_of(IoErrorKind::NotFound)
            },
            LockStepView::Identify => StepOutcomeView::Start(self.start),
            LockStepView::NameTemp(_) => StepOutcomeView::Sequence(self.sequence),
            LockStepView::LinkTemp => if self.lock_file is Some {
                error_of(IoErrorKind::AlreadyExists)
            } else if self.temp_file is None {
                error_of(IoErrorKind::NotFound)
            } else {
                StepOutcomeView::Done
            },
            LockStepView::ReadLock => match self.lock_file {
                Some(text) => StepOutcomeView::Contents(text),
                None => error_of(IoErrorKind::NotFound),
            },
            LockStepView::ProbeHolder(holder) => if (self.alive)(holder.pid) {
                StepOutcomeView::Done
            } else {
                StepOutcomeView::Errno(3)
            },
            _ => StepOutcomeView::Done,
        }
    }

    /// The machine after a step.
    pub open spec fn after(self, step: LockStepView) -> Machine {
        match step {
            LockStepView::CreateDirectory => Machine { directory: true, ..self },
            LockStepView::NameTemp(_) => Machine { sequence: self.sequence + 1, ..self },
            LockStepView::CreateTemp(_, _) => if self.directory {
                Machine { temp_file: Some(seq![]), ..self }
            } else {
                self
            },
            LockStepView::WriteTemp(text) => Machine { temp_file: Some(text), ..self },
            LockStepView::LinkTemp => if self.lock_file is Some {
                self
            } else {
                Machine { lock_file: self.temp_file, ..self }
            },
            LockStepView::RemoveTemp(_) => Machine { temp_file: None, ..self },
            LockStepView::RemoveStale => Machine { lock_file: None, ..self },
            _ => self,
        }
    }
}

/// The machine and the acquisition after so many steps. Nothing happens once the acquisition is
/// finished.
pub open spec fn performed(machine: Machine, s: LockAcquisitionView, steps: nat) -> (
    Machine,
    LockAcquisitionView,
)
    decreases steps,
{
    if steps == 0 {
        (machine, s)
    } else {
        let (m, now) = performed(machine, s, (steps - 1) as nat);
        if now.step is Finished {
            (m, now)
        } else {
            (m.after(now.step), now.next(m.outcome(now.step)))
        }
    }
}

/// What the text of the lock file says of the holder.
pub open spec fn holder_on(machine: Machine) -> Result<LockMetadataView, LockFileErrorView> {
    lock_metadata::metadata_of_text(machine.lock_file->0)
}

/// Whether there is a lock file that names a process that does not exist.
pub open spec fn lock_is_stale(machine: Machine) -> bool {
    machine.lock_file is Some && (holder_on(machine) matches Ok(holder) && !(machine.alive)(
        holder.pid,
    ))
}

/// The text that an acquisition on this machine writes into its lock file.
pub open spec fn own_text(machine: Machine, operation: Seq<char>) -> Seq<char> {
    lock_metadata::own_metadata(operation, machine.start.identity).file_text()
}

/// Whether the lock file is as it was in the first attempt, or was stale and is gone in the
/// second.
spec fn not_linked_yet(first: Machine, m: Machine, now: LockAcquisitionView) -> bool {
    ||| now.attempts_left == 3 && m.lock_file == first.lock_file
    ||| now.attempts_left == 2 && m.lock_file is None && lock_is_stale(first)
}

/// How far an acquisition on a machine has come.
spec fn on_course(
    first: Machine,
    operation: Seq<char>,
    paths: LockPathsView,
    m: Machine,
    now: LockAcquisitionView,
) -> bool {
    let own = own_text(first, operation);
    let obtainable = first.lock_file is None || lock_is_stale(first);
    &&& m.alive == first.alive
    &&& m.start == first.start
    &&& now.operation == operation
    &&& now.paths == paths
    &&& match now.step {
        LockStepView::ProbeDirectory
        | LockStepView::CreateDirectory
        | LockStepView::ShareDirectory
        | LockStepView::OpenGuard
        | LockStepView::ShareGuard
        | LockStepView::LockGuard => {
            &&& m.lock_file == first.lock_file
            &&& m.temp_file is None
            &&& now.attempts_left == 3
            &&& now.step is CreateDirectory ==> !m.directory
            &&& now.step is ProbeDirectory || now.step is CreateDirectory || m.directory
        },
        LockStepView::Identify => {
            &&& not_linked_yet(first, m, now)
            &&& m.temp_file is None
            &&& m.directory
        },
        LockStepView::NameTemp(temp) => {
            &&& not_linked_yet(first, m, now)
            &&& m.temp_file is None
            &&& m.directory
            &&& temp.text == own
        },
        LockStepView::CreateTemp(temp, _) => {
            &&& not_linked_yet(first, m, now)
            &&& m.temp_file is None
            &&& m.directory
            &&& temp.text == own
        },
        LockStepView::WriteTemp(text) => not_linked_yet(first, m, now) && text == own
            && m.directory,
        LockStepView::SyncTemp | LockStepView::LinkTemp => {
            &&& not_linked_yet(first, m, now)
            &&& m.temp_file == Some(own)
            &&& m.directory
        },
        LockStepView::RemoveTemp(Ok(_)) => m.lock_file == Some(own) && obtainable && m.directory,
        LockStepView::RemoveTemp(Err(failure)) => {
            &&& failure.kind == IoErrorKind::AlreadyExists
            &&& now.attempts_left == 3
            &&& first.lock_file is Some
            &&& m.lock_file == first.lock_file
            &&& m.directory
        },
        LockStepView::ShareLock => {
            &&& m.lock_file == Some(own)
            &&& m.temp_file is None
            &&& obtainable
            &&& m.directory
        },
        LockStepView::ReadLock => {
            &&& now.attempts_left == 3
            &&& first.lock_file is Some
            &&& m.lock_file == first.lock_file
            &&& m.temp_file is None
            &&& m.directory
        },
        LockStepView::ProbeHolder(holder) => {
            &&& now.attempts_left == 3
            &&& first.lock_file is Some
            &&& m.lock_file == first.lock_file
            &&& m.temp_file is None
            &&& m.directory
            &&& holder_on(first) == Ok::<LockMetadataView, LockFileErrorView>(holder)
        },
        LockStepView::RemoveStale => {
            &&& now.attempts_left == 3
            &&& m.lock_file == first.lock_file
            &&& m.temp_file is None
            &&& m.directory
            &&& lock_is_stale(first)
        },
        LockStepView::Finished(result) => m.directory && acquired_or_refused(
            first,
            operation,
            paths,
            m,
            result,
        ),
    }
}

/// What an acquisition has to come to, on a machine where nothing fails by chance. A lock that
/// is free or stale is granted, and the lock file then holds the metadata of whoever took it. A
/// lock that is held is refused with its holder, and one whose file names no holder with the
/// fault; the lock file then stays. No temporary file stays behind.
pub open spec fn acquired_or_refused(
    first: Machine,
    operation: Seq<char>,
    paths: LockPathsView,
    last: Machine,
    result: Result<Seq<char>, LockErrorView>,
) -> bool {
    &&& last.temp_file is None
    &&& if first.lock_file is None || lock_is_stale(first) {
        &&& result == Ok::<Seq<char>, LockErrorView>(paths.lock_path)
        &&& last.lock_file == Some(own_text(first, operation))
    } else {
        &&& last.lock_file == first.lock_file
        &&& match holder_on(first) {
            Ok(holder) => result == Err::<Seq<char>, LockErrorView>(LockErrorView::Held(holder)),
            Err(e) => result == Err::<Seq<char>, LockErrorView>(LockErrorView::Unreadable(e)),
        }
    }
}

proof fn lemma_step_on_course(
    first: Machine,
    operation: Seq<char>,
    paths: LockPathsView,
    m: Machine,
    now: LockAcquisitionView,
)
    requires
        on_course(first, operation, paths, m, now),
        !(now.step is Finished),
    ensures
        on_course(first, operation, paths, m.after(now.step), now.next(m.outcome(now.step))),
        file_lock::fits(now.step, m.outcome(now.step)),
{
}

proof fn lemma_performed(
    first: Machine,
    operation: Seq<char>,
    paths: LockPathsView,
    steps: nat,
)
    requires
        first.temp_file is None,
    ensures
        ({
            let (m, now) = performed(first, file_lock::initial(operation, paths), steps);
            &&& on_course(first, operation, paths, m, now)
            &&& now.step is Finished || steps + acquisition_laws::steps_left(now) <= 78
        }),
    decreases steps,
{
    let s = file_lock::initial(operation, paths);
    if steps > 0 {
        let (m, now) = performed(first, s, (steps - 1) as nat);
        lemma_performed(first, operation, paths, (steps - 1) as nat);
        if !(now.step is Finished) {
            lemma_step_on_course(first, operation, paths, m, now);
            acquisition_laws::lemma_step_lowers_bound(now, m.outcome(now.step));
        }
    }
}

/// On every machine an acquisition ends within 78 steps, and takes the lock if it is free or
/// its holder is gone, whether or not the lock directory is there at first. Else it is refused,
/// and leaves the lock file as it was.
pub proof fn lock_is_taken_unless_held(
    machine: Machine,
    operation: Seq<char>,
    paths: LockPathsView,
    steps: nat,
)
    requires
        machine.temp_file is None,
        steps >= 78,
    ensures
        ({
            let (last, end) = performed(machine, file_lock::initial(operation, paths), steps);
            &&& end.step matches LockStepView::Finished(result) && acquired_or_refused(
                machine,
                operation,
                paths,
                last,
                result,
            )
            &&& last.directory
        }),
{
    lemma_performed(machine, operation, paths, steps);
    let (m, now) = performed(machine, file_lock::initial(operation, paths), steps);
    if !(now.step is Finished) {
        assert(acquisition_laws::steps_left(now) == 0);
    }
}

} // verus!
