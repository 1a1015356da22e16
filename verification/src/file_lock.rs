//! The lock on the operator-owned override files, shared by processes.
//!
//! Taking the lock alternates system calls and decisions. `LockAcquisition` holds the
//! decisions: its `step` says which system call comes next, and `advance` takes what came of
//! it. Whoever drives the acquisition performs the step and hands back the outcome, until
//! the step is `LockStep::Finished`. The guard file, once locked, stays locked until then.

use crate::{decimal, errno, lock_metadata};
use crate::decimal::format_unsigned;
use crate::errno::{errno_display, errno_is_no_such_process};
use crate::lock_metadata::{
    IoErrorKind, IoFailure, IoFailureView, LockFileError, LockFileErrorView, LockMetadata,
    LockMetadataView, ProcessIdentity,
};
use vstd::prelude::*;

verus! {

/// The lock file.
pub const LOCK_PATH: &'static str = "/run/lqos/lqos_overrides.lock";

/// The directory that holds the lock file.
pub const LOCK_DIR: &'static str = "/run/lqos";

/// The directory whose permissions are opened to all when it has been created.
pub const LOCK_DIR_PERMS: &'static str = "/run/lqos";

/// The file that processes lock while they take or replace the lock file.
pub const LOCK_GUARD_PATH: &'static str = "/run/lqos/lqos_overrides.lock.guard";

/// What the message of a lock that another process holds starts with.
pub const LOCK_CONTENTION_CODE: &'static str = "LQOS_OVERRIDES_LOCKED";

/// How often the lock file is tried before giving up.
pub const STALE_LOCK_REPLACE_ATTEMPTS: usize = 3;

/// How many names are tried for the temporary file of one attempt.
pub const LOCK_TEMP_CREATE_ATTEMPTS: usize = 8;

/// The first number of the sequence that goes into the names of temporary files.
pub const FIRST_TEMP_SEQUENCE: u64 = 0;

/// The permissions of a directory that was created.
pub const LOCK_DIR_MODE: u32 = 0o777;

/// The permissions of the guard file and the lock file.
pub const LOCK_FILE_MODE: u32 = 0o666;

/// Cross-process lock used while mutating operator-owned override files. Whoever holds it
/// removes the lock file when done.
#[derive(Debug)]
pub struct FileLock {
    pub lock_path: String,
}

/// The files that an acquisition works with.
#[derive(Debug)]
pub struct LockPaths {
    pub lock_path: String,
    pub lock_dir: String,
    pub lock_dir_perms: String,
    pub guard_path: String,
}

/// Why the lock was not taken.
#[derive(Debug)]
pub enum LockError {
    /// A file operation failed.
    Io(IoFailure),
    /// The guard file could not be locked; the error number says why.
    Guard(i32),
    /// Every name tried for the temporary file was taken.
    NoTemporaryName,
    /// There is a lock file, but it does not say who holds the lock.
    Unreadable(LockFileError),
    /// A live process holds the lock.
    Held(LockMetadata),
    /// The lock file was replaced or vanished too often.
    StaleNotReplaced,
}

/// A temporary file of an attempt: the text for it, what its name is made of, and how many
/// names may still be tried.
#[derive(Debug)]
pub struct TempFile {
    pub text: String,
    pub process_id: u32,
    pub unix_nanos: u128,
    pub tries_left: usize,
}

/// What is known at the start of an attempt: the identity of the process, its id as it goes
/// into file names, and the nanoseconds since the Unix epoch if the clock gives them.
#[derive(Debug)]
pub struct AttemptStart {
    pub identity: ProcessIdentity,
    pub process_id: u32,
    pub unix_nanos: Option<u128>,
}

/// What to do next.
#[derive(Debug)]
pub enum LockStep {
    /// Ask whether the lock directory exists and is a directory.
    ProbeDirectory,
    /// Create the lock directory.
    CreateDirectory,
    /// Give the permissions directory `LOCK_DIR_MODE`; only a path that cannot be passed to
    /// the system is a failure.
    ShareDirectory,
    /// Open the guard file for reading and writing, creating it if needed.
    OpenGuard,
    /// Give the guard file `LOCK_FILE_MODE`, as in `ShareDirectory`.
    ShareGuard,
    /// Lock the guard file exclusively, waiting as long as it takes.
    LockGuard,
    /// Find out who and when this is.
    Identify,
    /// Draw the next number of the process-wide sequence, which starts at
    /// `FIRST_TEMP_SEQUENCE` and goes on by `next_temp_sequence`.
    NameTemp(TempFile),
    /// Create the file of this name in the lock directory, which must not exist yet.
    CreateTemp(TempFile, String),
    /// Write this text to the temporary file.
    WriteTemp(String),
    /// Flush the temporary file to the disk, and close it.
    SyncTemp,
    /// Link the lock file to the temporary file.
    LinkTemp,
    /// Remove the temporary file; the outcome does not matter. Carries what came of the link.
    RemoveTemp(Result<(), IoFailure>),
    /// Give the lock file `LOCK_FILE_MODE`, as in `ShareDirectory`.
    ShareLock,
    /// Read the lock file.
    ReadLock,
    /// Ask with signal 0 whether the process that the lock file names exists.
    ProbeHolder(LockMetadata),
    /// Remove the lock file.
    RemoveStale,
    /// Nothing: release the guard file if it is locked.
    Finished(Result<FileLock, LockError>),
}

/// What came of a step.
#[derive(Debug)]
pub enum StepOutcome {
    /// The step succeeded.
    Done,
    /// A file operation failed.
    Failed(IoFailure),
    /// A system call failed with this error number.
    Errno(i32),
    /// The answer to a question.
    Answer(bool),
    /// The start of an attempt.
    Start(AttemptStart),
    /// The next number of the sequence.
    Sequence(u64),
    /// The text of the lock file.
    Contents(String),
}

/// An attempt to take the lock, in progress.
#[derive(Debug)]
pub struct LockAcquisition {
    pub operation: String,
    pub paths: LockPaths,
    pub attempts_left: usize,
    pub step: LockStep,
}

/// The mathematical content of a `LockPaths`.
#[verifier::ext_equal]
pub struct LockPathsView {
    pub lock_path: Seq<char>,
    pub lock_dir: Seq<char>,
    pub lock_dir_perms: Seq<char>,
    pub guard_path: Seq<char>,
}

/// The mathematical content of a `LockError`.
#[verifier::ext_equal]
pub enum LockErrorView {
    Io(IoFailureView),
    Guard(i32),
    NoTemporaryName,
    Unreadable(LockFileErrorView),
    Held(LockMetadataView),
    StaleNotReplaced,
}

/// The mathematical content of a `TempFile`.
#[verifier::ext_equal]
pub struct TempFileView {
    pub text: Seq<char>,
    pub process_id: nat,
    pub unix_nanos: nat,
    pub tries_left: nat,
}

/// The mathematical content of a `LockStep`. A lock that was taken is seen as its path.
#[verifier::ext_equal]
pub enum LockStepView {
    ProbeDirectory,
    CreateDirectory,
    ShareDirectory,
    OpenGuard,
    ShareGuard,
    LockGuard,
    Identify,
    NameTemp(TempFileView),
    CreateTemp(TempFileView, Seq<char>),
    WriteTemp(Seq<char>),
    SyncTemp,
    LinkTemp,
    RemoveTemp(Result<(), IoFailureView>),
    ShareLock,
    ReadLock,
    ProbeHolder(LockMetadataView),
    RemoveStale,
    Finished(Result<Seq<char>, LockErrorView>),
}

/// The mathematical content of a `StepOutcome`.
#[verifier::ext_equal]
pub enum StepOutcomeView {
    Done,
    Failed(IoFailureView),
    Errno(i32),
    Answer(bool),
    Start(AttemptStart),
    Sequence(nat),
    Contents(Seq<char>),
}

/// The mathematical content of a `LockAcquisition`.
#[verifier::ext_equal]
pub struct LockAcquisitionView {
    pub operation: Seq<char>,
    pub paths: LockPathsView,
    pub attempts_left: nat,
    pub step: LockStepView,
}

impl View for LockPaths {
    type V = LockPathsView;

    open spec fn view(&self) -> LockPathsView {
        LockPathsView {
            lock_path: self.lock_path@,
            lock_dir: self.lock_dir@,
            lock_dir_perms: self.lock_dir_perms@,
            guard_path: self.guard_path@,
        }
    }
}

impl View for LockError {
    type V = LockErrorView;

    open spec fn view(&self) -> LockErrorView {
        match self {
            LockError::Io(failure) => LockErrorView::Io(failure@),
            LockError::Guard(errno) => LockErrorView::Guard(*errno),
            LockError::NoTemporaryName => LockErrorView::NoTemporaryName,
            LockError::Unreadable(e) => LockErrorView::Unreadable(e@),
            LockError::Held(holder) => LockErrorView::Held(holder@),
            LockError::StaleNotReplaced => LockErrorView::StaleNotReplaced,
        }
    }
}

impl View for TempFile {
    type V = TempFileView;

    open spec fn view(&self) -> TempFileView {
        TempFileView {
            text: self.text@,
            process_id: self.process_id as nat,
            unix_nanos: self.unix_nanos as nat,
            tries_left: self.tries_left as nat,
        }
    }
}

impl View for LockStep {
    type V = LockStepView;

    open spec fn view(&self) -> LockStepView {
        match self {
            LockStep::ProbeDirectory => LockStepView::ProbeDirectory,
            LockStep::CreateDirectory => LockStepView::CreateDirectory,
            LockStep::ShareDirectory => LockStepView::ShareDirectory,
            LockStep::OpenGuard => LockStepView::OpenGuard,
            LockStep::ShareGuard => LockStepView::ShareGuard,
            LockStep::LockGuard => LockStepView::LockGuard,
            LockStep::Identify => LockStepView::Identify,
            LockStep::NameTemp(temp) => LockStepView::NameTemp(temp@),
            LockStep::CreateTemp(temp, name) => LockStepView::CreateTemp(temp@, name@),
            LockStep::WriteTemp(text) => LockStepView::WriteTemp(text@),
            LockStep::SyncTemp => LockStepView::SyncTemp,
            LockStep::LinkTemp => LockStepView::LinkTemp,
            LockStep::RemoveTemp(Ok(_)) => LockStepView::RemoveTemp(Ok(())),
            LockStep::RemoveTemp(Err(failure)) => LockStepView::RemoveTemp(Err(failure@)),
            LockStep::ShareLock => LockStepView::ShareLock,
            LockStep::ReadLock => LockStepView::ReadLock,
            LockStep::ProbeHolder(holder) => LockStepView::ProbeHolder(holder@),
            LockStep::RemoveStale => LockStepView::RemoveStale,
            LockStep::Finished(Ok(lock)) => LockStepView::Finished(Ok(lock.lock_path@)),
            LockStep::Finished(Err(e)) => LockStepView::Finished(Err(e@)),
        }
    }
}

impl View for StepOutcome {
    type V = StepOutcomeView;

    open spec fn view(&self) -> StepOutcomeView {
        match self {
            StepOutcome::Done => StepOutcomeView::Done,
            StepOutcome::Failed(failure) => StepOutcomeView::Failed(failure@),
            StepOutcome::Errno(errno) => StepOutcomeView::Errno(*errno),
            StepOutcome::Answer(answer) => StepOutcomeView::Answer(*answer),
            StepOutcome::Start(start) => StepOutcomeView::Start(*start),
            StepOutcome::Sequence(n) => StepOutcomeView::Sequence(*n as nat),
            StepOutcome::Contents(text) => StepOutcomeView::Contents(text@),
        }
    }
}

impl View for LockAcquisition {
    type V = LockAcquisitionView;

    open spec fn view(&self) -> LockAcquisitionView {
        LockAcquisitionView {
            operation: self.operation@,
            paths: self.paths@,
            attempts_left: self.attempts_left as nat,
            step: self.step@,
        }
    }
}

impl LockErrorView {
    /// The error in words.
    pub open spec fn text(self) -> Seq<char> {
        match self {
            LockErrorView::Io(failure) => failure.message,
            LockErrorView::Guard(errno) => guard_failure(errno::errno_text(errno)),
            LockErrorView::NoTemporaryName =>
                "Unable to create a unique temporary LibreQoS overrides lock file after "@
                    + decimal::decimal(LOCK_TEMP_CREATE_ATTEMPTS as nat) + " attempts."@,
            LockErrorView::Unreadable(e) => contention("lock metadata unreadable: "@ + e.text()),
            LockErrorView::Held(holder) => contention(holder.holder_text()),
            LockErrorView::StaleNotReplaced =>
                "Unable to acquire the LibreQoS overrides lock after replacing a stale lock."@,
        }
    }
}

/// The message of a guard file that could not be locked.
pub open spec fn guard_failure(errno_text: Seq<char>) -> Seq<char> {
    "Unable to acquire LibreQoS overrides lock guard: "@ + errno_text
}

/// The message of a lock that another process holds.
pub open spec fn contention(detail: Seq<char>) -> Seq<char> {
    LOCK_CONTENTION_CODE@ + ": The LibreQoS overrides files are locked by another process ("@ + detail
        + ")."@
}

/// The name of a temporary file.
pub open spec fn temp_name(process_id: nat, unix_nanos: nat, sequence: nat) -> Seq<char> {
    ".lqos_overrides.lock."@ + decimal::decimal(process_id) + "."@
        + decimal::decimal(unix_nanos) + "."@ + decimal::decimal(sequence) + ".tmp"@
}

/// The number after `sequence`; the largest `u64` is followed by 0.
pub open spec fn sequence_after(sequence: nat) -> nat {
    if sequence == u64::MAX {
        0
    } else {
        sequence + 1
    }
}

/// The number that is drawn from the sequence after `earlier` others.
pub open spec fn drawn(earlier: nat) -> nat
    decreases earlier,
{
    if earlier == 0 {
        FIRST_TEMP_SEQUENCE as nat
    } else {
        sequence_after(drawn((earlier - 1) as nat))
    }
}

/// Which outcomes a step can have. An acquisition that is finished has no more outcomes.
pub open spec fn fits(step: LockStepView, outcome: StepOutcomeView) -> bool {
    match step {
        LockStepView::ProbeDirectory => outcome is Answer,
        LockStepView::LockGuard | LockStepView::ProbeHolder(_) => outcome is Done || outcome
            is Errno,
        LockStepView::Identify => outcome is Start,
        LockStepView::NameTemp(_) => outcome is Sequence,
        LockStepView::ReadLock => outcome is Contents || outcome is Failed,
        LockStepView::Finished(_) => false,
        _ => outcome is Done || outcome is Failed,
    }
}

/// The acquisition before its first step.
pub open spec fn initial(operation: Seq<char>, paths: LockPathsView) -> LockAcquisitionView {
    LockAcquisitionView {
        operation,
        paths,
        attempts_left: STALE_LOCK_REPLACE_ATTEMPTS as nat,
        step: LockStepView::ProbeDirectory,
    }
}

impl LockAcquisitionView {
    /// The same acquisition at another step.
    pub open spec fn at(self, step: LockStepView) -> LockAcquisitionView {
        LockAcquisitionView { step, ..self }
    }

    /// Finished with an error.
    pub open spec fn refused(self, e: LockErrorView) -> LockAcquisitionView {
        self.at(LockStepView::Finished(Err(e)))
    }

    /// The next attempt, or the end if this was the last.
    pub open spec fn retry(self) -> LockAcquisitionView {
        if self.attempts_left <= 1 {
            LockAcquisitionView {
                attempts_left: 0,
                ..self.refused(LockErrorView::StaleNotReplaced)
            }
        } else {
            LockAcquisitionView {
                attempts_left: (self.attempts_left - 1) as nat,
                ..self.at(LockStepView::Identify)
            }
        }
    }

    /// On to `step` if the outcome was a success, else the end with the failure.
    pub open spec fn after(self, outcome: StepOutcomeView, step: LockStepView)
        -> LockAcquisitionView {
        match outcome {
            StepOutcomeView::Failed(failure) => self.refused(LockErrorView::Io(failure)),
            _ => self.at(step),
        }
    }

    /// The acquisition after its step had this outcome.
    pub open spec fn next(self, outcome: StepOutcomeView) -> LockAcquisitionView {
        match self.step {
            LockStepView::ProbeDirectory => if outcome == StepOutcomeView::Answer(true) {
                self.at(LockStepView::OpenGuard)
            } else {
                self.at(LockStepView::CreateDirectory)
            },
            LockStepView::CreateDirectory => self.after(outcome, LockStepView::ShareDirectory),
            LockStepView::ShareDirectory => self.after(outcome, LockStepView::OpenGuard),
            LockStepView::OpenGuard => self.after(outcome, LockStepView::ShareGuard),
            LockStepView::ShareGuard => self.after(outcome, LockStepView::LockGuard),
            LockStepView::LockGuard => match outcome {
                StepOutcomeView::Errno(errno) => self.refused(LockErrorView::Guard(errno)),
                _ => self.at(LockStepView::Identify),
            },
            LockStepView::Identify => self.at(
                LockStepView::NameTemp(
                    TempFileView {
                        text: lock_metadata::own_metadata(
                            self.operation,
                            outcome->Start_0.identity,
                        ).file_text(),
                        process_id: outcome->Start_0.process_id as nat,
                        unix_nanos: match outcome->Start_0.unix_nanos {
                            Some(nanos) => nanos as nat,
                            None => 0,
                        },
                        tries_left: LOCK_TEMP_CREATE_ATTEMPTS as nat,
                    },
                ),
            ),
            LockStepView::NameTemp(temp) => self.at(
                LockStepView::CreateTemp(
                    temp,
                    temp_name(temp.process_id, temp.unix_nanos, outcome->Sequence_0),
                ),
            ),
            LockStepView::CreateTemp(temp, _) => match outcome {
                StepOutcomeView::Failed(failure) => if failure.kind != IoErrorKind::AlreadyExists {
                    self.refused(LockErrorView::Io(failure))
                } else if temp.tries_left <= 1 {
                    self.refused(LockErrorView::NoTemporaryName)
                } else {
                    self.at(
                        LockStepView::NameTemp(
                            TempFileView { tries_left: (temp.tries_left - 1) as nat, ..temp },
                        ),
                    )
                },
                _ => self.at(LockStepView::WriteTemp(temp.text)),
            },
            LockStepView::WriteTemp(_) => self.after(outcome, LockStepView::SyncTemp),
            LockStepView::SyncTemp => self.after(outcome, LockStepView::LinkTemp),
            LockStepView::LinkTemp => match outcome {
                StepOutcomeView::Failed(failure) => self.at(
                    LockStepView::RemoveTemp(Err(failure)),
                ),
                _ => self.at(LockStepView::RemoveTemp(Ok(()))),
            },
            LockStepView::RemoveTemp(link) => match link {
                Ok(_) => self.at(LockStepView::ShareLock),
                Err(failure) => if failure.kind == IoErrorKind::AlreadyExists {
                    self.at(LockStepView::ReadLock)
                } else {
                    self.refused(LockErrorView::Io(failure))
                },
            },
            LockStepView::ShareLock => self.after(
                outcome,
                LockStepView::Finished(Ok(self.paths.lock_path)),
            ),
            LockStepView::ReadLock => match outcome {
                StepOutcomeView::Failed(failure) => if failure.kind == IoErrorKind::NotFound {
                    self.retry()
                } else {
                    self.refused(LockErrorView::Unreadable(LockFileErrorView::Io(failure)))
                },
                _ => match lock_metadata::metadata_of_text(outcome->Contents_0) {
                    Ok(holder) => self.at(LockStepView::ProbeHolder(holder)),
                    Err(e) => self.refused(LockErrorView::Unreadable(e)),
                },
            },
            LockStepView::ProbeHolder(holder) => match outcome {
                StepOutcomeView::Errno(errno) => if errno::means_no_such_process(errno) {
                    self.at(LockStepView::RemoveStale)
                } else {
                    self.refused(LockErrorView::Held(holder))
                },
                _ => self.refused(LockErrorView::Held(holder)),
            },
            LockStepView::RemoveStale => match outcome {
                StepOutcomeView::Failed(failure) => if failure.kind == IoErrorKind::NotFound {
                    self.retry()
                } else {
                    self.refused(LockErrorView::Io(failure))
                },
                _ => self.retry(),
            },
            LockStepView::Finished(_) => self,
        }
    }
}

/// The message of a guard file that could not be locked, given the text of the error number.
pub fn guard_failure_message(errno_text: &str) -> (r: String)
    ensures
        r@ == guard_failure(errno_text@),
{
    let mut r = "Unable to acquire LibreQoS overrides lock guard: ".to_owned();
    r.append(errno_text);
    r
}

/// The message of a lock that another process holds.
pub fn contention_message(detail: &str) -> (r: String)
    ensures
        r@ == contention(detail@),
{
    let mut r = LOCK_CONTENTION_CODE.to_owned();
    r.append(": The LibreQoS overrides files are locked by another process (");
    r.append(detail);
    r.append(").");
    r
}

impl LockError {
    /// Says in words why the lock was not taken.
    pub fn message(&self) -> (r: String)
        ensures
            r@ == self@.text(),
    {
        match self {
            LockError::Io(failure) => failure.message.as_str().to_owned(),
            LockError::Guard(errno) => guard_failure_message(errno_display(*errno).as_str()),
            LockError::NoTemporaryName => {
                let mut r =
                    "Unable to create a unique temporary LibreQoS overrides lock file after ".to_owned();
                r.append(format_unsigned(LOCK_TEMP_CREATE_ATTEMPTS as u128).as_str());
                r.append(" attempts.");
                r
            },
            LockError::Unreadable(e) => {
                let mut detail = "lock metadata unreadable: ".to_owned();
                detail.append(e.message().as_str());
                contention_message(detail.as_str())
            },
            LockError::Held(holder) => contention_message(holder.describe_holder().as_str()),
            LockError::StaleNotReplaced =>
                "Unable to acquire the LibreQoS overrides lock after replacing a stale lock.".to_owned(),
        }
    }
}

/// The name of the temporary file of one try.
pub fn temp_lock_file_name(process_id: u32, unix_nanos: u128, sequence: u64) -> (r: String)
    ensures
        r@ == temp_name(process_id as nat, unix_nanos as nat, sequence as nat),
{
    let mut r = ".lqos_overrides.lock.".to_owned();
    r.append(format_unsigned(process_id as u128).as_str());
    r.append(".");
    r.append(format_unsigned(unix_nanos).as_str());
    r.append(".");
    r.append(format_unsigned(sequence as u128).as_str());
    r.append(".tmp");
    r
}

/// The number that follows `sequence` in the sequence for the names of temporary files.
pub fn next_temp_sequence(sequence: u64) -> (r: u64)
    ensures
        r == sequence_after(sequence as nat),
{
    sequence.wrapping_add(1)
}

impl FileLock {
    /// Starts to acquire the lock, recording the caller operation for diagnostics.
    pub fn new_for_operation(operation: &str) -> (r: LockAcquisition)
        ensures
            r@ == initial(
                operation@,
                LockPathsView {
                    lock_path: LOCK_PATH@,
                    lock_dir: LOCK_DIR@,
                    lock_dir_perms: LOCK_DIR_PERMS@,
                    guard_path: LOCK_GUARD_PATH@,
                },
            ),
    {
        Self::new_at(operation, LOCK_PATH, LOCK_DIR, LOCK_DIR_PERMS, LOCK_GUARD_PATH)
    }

    /// Starts to acquire a lock at the given paths.
    pub fn new_at(
        operation: &str,
        lock_path: &str,
        lock_dir: &str,
        lock_dir_perms: &str,
        guard_path: &str,
    ) -> (r: LockAcquisition)
        ensures
            r@ == initial(
                operation@,
                LockPathsView {
                    lock_path: lock_path@,
                    lock_dir: lock_dir@,
                    lock_dir_perms: lock_dir_perms@,
                    guard_path: guard_path@,
                },
            ),
    {
        LockAcquisition {
            operation: operation.to_owned(),
            paths: LockPaths {
                lock_path: lock_path.to_owned(),
                lock_dir: lock_dir.to_owned(),
                lock_dir_perms: lock_dir_perms.to_owned(),
                guard_path: guard_path.to_owned(),
            },
            attempts_left: STALE_LOCK_REPLACE_ATTEMPTS,
            step: LockStep::ProbeDirectory,
        }
    }

    /// The metadata in a lock file, given what came of reading it.
    pub fn read_lock_metadata(read: Result<String, IoFailure>) -> (r: Result<
        LockMetadata,
        LockFileError,
    >)
        ensures
            match read {
                Ok(contents) => match r {
                    Ok(metadata) => lock_metadata::metadata_of_text(contents@) == Ok::<
                        LockMetadataView,
                        LockFileErrorView,
                    >(metadata@),
                    Err(e) => lock_metadata::metadata_of_text(contents@) == Err::<
                        LockMetadataView,
                        LockFileErrorView,
                    >(e@),
                },
                Err(failure) => r == Err::<LockMetadata, LockFileError>(LockFileError::Io(failure)),
            },
    {
        match read {
            Ok(contents) => LockMetadata::parse(contents.as_str()),
            Err(failure) => Err(LockFileError::Io(failure)),
        }
    }

    /// Whether the lock file was not there.
    pub fn is_not_found_error(err: &LockFileError) -> (r: bool)
        ensures
            r <==> (err matches LockFileError::Io(failure) && failure.kind == IoErrorKind::NotFound),
    {
        match err {
            LockFileError::Io(failure) => failure.kind == IoErrorKind::NotFound,
            _ => false,
        }
    }

    /// Whether the process that a lock file names still holds the lock: any answer to signal 0
    /// but "no such process" says so. `errno` is the error number, or `None` if there was no
    /// error.
    pub fn is_lock_valid(errno: Option<i32>) -> (r: bool)
        ensures
            r <==> !(errno matches Some(raw) && errno::means_no_such_process(raw)),
    {
        match errno {
            None => true,
            Some(raw) => !errno_is_no_such_process(raw),
        }
    }
}

impl LockAcquisition {
    /// Moves to the next attempt, or ends if this was the last.
    fn retry(self) -> (r: Self)
        ensures
            r@ == self@.retry(),
    {
        if self.attempts_left <= 1 {
            LockAcquisition {
                operation: self.operation,
                paths: self.paths,
                attempts_left: 0,
                step: LockStep::Finished(Err(LockError::StaleNotReplaced)),
            }
        } else {
            LockAcquisition {
                operation: self.operation,
                paths: self.paths,
                attempts_left: self.attempts_left - 1,
                step: LockStep::Identify,
            }
        }
    }

    /// Moves to another step.
    fn at(self, step: LockStep) -> (r: Self)
        ensures
            r@ == self@.at(step@),
    {
        LockAcquisition {
            operation: self.operation,
            paths: self.paths,
            attempts_left: self.attempts_left,
            step,
        }
    }

    /// Ends with an error.
    fn refused(self, e: LockError) -> (r: Self)
        ensures
            r@ == self@.refused(e@),
    {
        self.at(LockStep::Finished(Err(e)))
    }

    /// Moves to `step` unless the outcome is a failure, which ends the acquisition.
    fn after(self, outcome: StepOutcome, step: LockStep) -> (r: Self)
        ensures
            r@ == self@.after(outcome@, step@),
    {
        match outcome {
            StepOutcome::Failed(failure) => self.refused(LockError::Io(failure)),
            _ => self.at(step),
        }
    }

    /// Takes what came of the current step and decides what is next.
    pub fn advance(self, outcome: StepOutcome) -> (r: Self)
        requires
            fits(self@.step, outcome@),
        ensures
            r@ == self@.next(outcome@),
    {
        let LockAcquisition { operation, paths, attempts_left, step } = self;
        let acquisition = LockAcquisition {
            operation,
            paths,
            attempts_left,
            step: LockStep::Identify,
        };
        match step {
            LockStep::ProbeDirectory => match outcome {
                StepOutcome::Answer(true) => acquisition.at(LockStep::OpenGuard),
                _ => acquisition.at(LockStep::CreateDirectory),
            },
            LockStep::CreateDirectory => acquisition.after(outcome, LockStep::ShareDirectory),
            LockStep::ShareDirectory => acquisition.after(outcome, LockStep::OpenGuard),
            LockStep::OpenGuard => acquisition.after(outcome, LockStep::ShareGuard),
            LockStep::ShareGuard => acquisition.after(outcome, LockStep::LockGuard),
            LockStep::LockGuard => match outcome {
                StepOutcome::Errno(errno) => acquisition.refused(LockError::Guard(errno)),
                _ => acquisition.at(LockStep::Identify),
            },
            LockStep::Identify => match outcome {
                StepOutcome::Start(start) => {
                    let metadata = LockMetadata::current(
                        acquisition.operation.as_str(),
                        &start.identity,
                    );
                    let temp = TempFile {
                        text: metadata.serialize(),
                        process_id: start.process_id,
                        unix_nanos: match start.unix_nanos {
                            Some(nanos) => nanos,
                            None => 0,
                        },
                        tries_left: LOCK_TEMP_CREATE_ATTEMPTS,
                    };
                    acquisition.at(LockStep::NameTemp(temp))
                },
                _ => acquisition,
            },
            LockStep::NameTemp(temp) => match outcome {
                StepOutcome::Sequence(sequence) => {
                    let name = temp_lock_file_name(temp.process_id, temp.unix_nanos, sequence);
                    acquisition.at(LockStep::CreateTemp(temp, name))
                },
                _ => acquisition,
            },
            LockStep::CreateTemp(temp, _) => match outcome {
                StepOutcome::Failed(failure) => if failure.kind != IoErrorKind::AlreadyExists {
                    acquisition.refused(LockError::Io(failure))
                } else if temp.tries_left <= 1 {
                    acquisition.refused(LockError::NoTemporaryName)
                } else {
                    let again = TempFile {
                        text: temp.text,
                        process_id: temp.process_id,
                        unix_nanos: temp.unix_nanos,
                        tries_left: temp.tries_left - 1,
                    };
                    acquisition.at(LockStep::NameTemp(again))
                },
                _ => acquisition.at(LockStep::WriteTemp(temp.text)),
            },
            LockStep::WriteTemp(_) => acquisition.after(outcome, LockStep::SyncTemp),
            LockStep::SyncTemp => acquisition.after(outcome, LockStep::LinkTemp),
            LockStep::LinkTemp => match outcome {
                StepOutcome::Failed(failure) => acquisition.at(LockStep::RemoveTemp(Err(failure))),
                _ => acquisition.at(LockStep::RemoveTemp(Ok(()))),
            },
            LockStep::RemoveTemp(link) => match link {
                Ok(_) => acquisition.at(LockStep::ShareLock),
                Err(failure) => if failure.kind == IoErrorKind::AlreadyExists {
                    acquisition.at(LockStep::ReadLock)
                } else {
                    acquisition.refused(LockError::Io(failure))
                },
            },
            LockStep::ShareLock => {
                let lock = FileLock { lock_path: acquisition.paths.lock_path.as_str().to_owned() };
                acquisition.after(outcome, LockStep::Finished(Ok(lock)))
            },
            LockStep::ReadLock => {
                let read = match outcome {
                    StepOutcome::Contents(contents) => FileLock::read_lock_metadata(Ok(contents)),
                    StepOutcome::Failed(failure) => FileLock::read_lock_metadata(Err(failure)),
                    _ => {
                        return acquisition;
                    },
                };
                match read {
                    Ok(holder) => acquisition.at(LockStep::ProbeHolder(holder)),
                    Err(e) => if FileLock::is_not_found_error(&e) {
                        acquisition.retry()
                    } else {
                        acquisition.refused(LockError::Unreadable(e))
                    },
                }
            },
            LockStep::ProbeHolder(holder) => {
                let errno = match outcome {
                    StepOutcome::Errno(errno) => Some(errno),
                    _ => None,
                };
                if FileLock::is_lock_valid(errno) {
                    acquisition.refused(LockError::Held(holder))
                } else {
                    acquisition.at(LockStep::RemoveStale)
                }
            },
            LockStep::RemoveStale => match outcome {
                StepOutcome::Failed(failure) => if failure.kind == IoErrorKind::NotFound {
                    acquisition.retry()
                } else {
                    acquisition.refused(LockError::Io(failure))
                },
                _ => acquisition.retry(),
            },
            LockStep::Finished(result) => acquisition.at(LockStep::Finished(result)),
        }
    }
}

} // verus!
