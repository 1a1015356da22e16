use lqos_control::file_lock::{
    next_temp_sequence, temp_lock_file_name, AttemptStart, FileLock, LockError, LockStep,
    StepOutcome, FIRST_TEMP_SEQUENCE, LOCK_CONTENTION_CODE, LOCK_DIR, LOCK_DIR_MODE,
    LOCK_DIR_PERMS, LOCK_FILE_MODE, LOCK_GUARD_PATH, LOCK_PATH, LOCK_TEMP_CREATE_ATTEMPTS,
};
use lqos_control::lock_metadata::{
    current_process_name, sanitize_lock_field, IoErrorKind, IoFailure, LockFileError,
    LockMetadata, ProcessIdentity,
};

const OWN_PID: i32 = 4242;
const ESRCH: i32 = 3;
const EPERM: i32 = 1;

#[test]
fn parses_legacy_pid_only_lock_file() {
    let metadata = LockMetadata::parse("12345\n").expect("legacy pid lock should parse");

    assert_eq!(metadata.pid, 12345);
    assert_eq!(metadata.process, None);
    assert_eq!(metadata.operation, None);
    assert_eq!(metadata.created_unix, None);
}

#[test]
fn parses_metadata_lock_file() {
    let metadata = LockMetadata::parse(
        "pid=12345\nprocess=lqosd\noperation=load effective overrides\ncreated_unix=1800000000\n",
    )
    .expect("metadata lock should parse");

    assert_eq!(metadata.pid, 12345);
    assert_eq!(metadata.process.as_deref(), Some("lqosd"));
    assert_eq!(
        metadata.operation.as_deref(),
        Some("load effective overrides")
    );
    assert_eq!(metadata.created_unix, Some(1_800_000_000));
}

#[test]
fn holder_description_includes_available_metadata() {
    let metadata = LockMetadata::parse(
        "pid=12345\nprocess=node_manager\noperation=save overrides\ncreated_unix=1800000000\n",
    )
    .expect("metadata lock should parse");

    assert_eq!(
        metadata.describe_holder(),
        "pid=12345, process=node_manager, operation=save overrides, created_unix=1800000000"
    );
}

fn metadata(pid: i32, process: Option<&str>, operation: Option<&str>) -> LockMetadata {
    LockMetadata {
        pid,
        process: process.map(|s| s.to_string()),
        operation: operation.map(|s| s.to_string()),
        created_unix: Some(1_800_000_000),
    }
}

#[test]
fn written_metadata_reads_back() {
    for m in [
        metadata(1, Some("lqosd"), Some("save overrides")),
        metadata(i32::MAX, Some("a=b"), Some("")),
        metadata(-7, Some("a\rb"), Some("pid=9")),
    ] {
        assert_eq!(LockMetadata::parse(&m.serialize()), Ok(m));
    }
    let padded = metadata(5, Some(" lqosd\t"), Some("save\r"));
    assert_eq!(
        LockMetadata::parse(&padded.serialize()),
        Ok(metadata(5, Some("lqosd"), Some("save")))
    );
    let unnamed = metadata(5, None, None);
    assert_eq!(
        unnamed.serialize(),
        "pid=5\nprocess=unknown\noperation=unknown\ncreated_unix=1800000000\n"
    );
    assert_eq!(
        LockMetadata::parse(&unnamed.serialize()),
        Ok(metadata(5, Some("unknown"), Some("unknown")))
    );
}

#[test]
fn metadata_without_a_time_does_not_read_back() {
    let m = LockMetadata {
        created_unix: None,
        ..metadata(5, Some("lqosd"), Some("save"))
    };
    assert!(m.serialize().ends_with("created_unix=unknown\n"));
    let error = LockMetadata::parse(&m.serialize()).expect_err("the time is no number");
    assert_eq!(error.message(), "invalid digit found in string");
}

#[test]
fn pid_alone_may_have_whitespace_around_it() {
    for text in ["7", " 7", "7\r\n", "\n\t7\u{a0}\n", "+7"] {
        assert_eq!(LockMetadata::parse(text).unwrap().pid, 7);
    }
    assert_eq!(LockMetadata::parse("-7").unwrap().pid, -7);
}

#[test]
fn last_value_of_a_key_counts() {
    let m = LockMetadata::parse(
        "# note\r\n pid = 1 \r\nother=2\npid=3\nprocess=a=b\nprocess\noperation=\ncreated_unix=+9",
    )
    .unwrap();
    assert_eq!(
        m,
        LockMetadata {
            pid: 3,
            process: Some("a=b".to_string()),
            operation: Some(String::new()),
            created_unix: Some(9),
        }
    );
    assert_eq!(m.describe_holder(), "pid=3, process=a=b, created_unix=9");
}

#[test]
fn broken_lock_texts_are_refused() {
    let message = |text: &str| {
        LockMetadata::parse(text)
            .expect_err("the text is broken")
            .message()
    };
    assert_eq!(message("pid="), "cannot parse integer from empty string");
    assert_eq!(message("pid=x\ncreated_unix="), "invalid digit found in string");
    assert_eq!(
        message("created_unix=\npid=x"),
        "cannot parse integer from empty string"
    );
    assert_eq!(
        message("pid=2147483648"),
        "number too large to fit in target type"
    );
    assert_eq!(
        message("pid=-2147483649"),
        "number too small to fit in target type"
    );
    assert_eq!(
        message("2147483648"),
        "The LibreQoS overrides lock file does not contain a process id."
    );
    assert_eq!(
        message(""),
        "The LibreQoS overrides lock file does not contain a process id."
    );
}

#[test]
fn sanitizing_removes_line_breaks() {
    assert_eq!(sanitize_lock_field("a\nb\r\nc d"), "abc d");
    assert_eq!(sanitize_lock_field("\r\n"), "");
    assert_eq!(sanitize_lock_field(&sanitize_lock_field("x\ry")), "xy");
}

#[test]
fn process_name_falls_back_to_the_first_argument() {
    let name = |comm, argument| current_process_name(comm, argument);
    assert_eq!(name(Some("lqosd\n"), Some("arg")).as_deref(), Some("lqosd"));
    assert_eq!(name(Some(" \n"), Some("/bin/x\n")).as_deref(), Some("/bin/x"));
    assert_eq!(name(None, Some(" x ")).as_deref(), Some(" x "));
    assert_eq!(name(None, Some("")), None);
    assert_eq!(name(None, None), None);
}

#[test]
fn own_metadata_is_sanitized() {
    let identity = ProcessIdentity {
        pid: OWN_PID,
        comm: Some("lqosd\n".to_string()),
        first_argument: None,
        unix_seconds: Some(7),
    };
    let m = LockMetadata::current("save\noverrides", &identity);
    assert_eq!(
        m.serialize(),
        "pid=4242\nprocess=lqosd\noperation=saveoverrides\ncreated_unix=7\n"
    );
    assert_eq!(LockMetadata::parse(&m.serialize()), Ok(m));
}

/// A machine in memory: one lock file, and processes that are alive.
struct Machine {
    dir_exists: bool,
    lock_file: Option<String>,
    live: Vec<i32>,
    probe_errno: i32,
    temp_names_taken: usize,
    sequence: u64,
    temp: Option<(String, String)>,
    guard_errno: Option<i32>,
    fail: Option<&'static str>,
    vanish_on_read: bool,
    lock_returns: usize,
    log: Vec<&'static str>,
    temp_names: Vec<String>,
}

impl Machine {
    fn new(lock_file: Option<&str>) -> Self {
        Machine {
            dir_exists: true,
            lock_file: lock_file.map(|s| s.to_string()),
            live: vec![OWN_PID],
            probe_errno: ESRCH,
            temp_names_taken: 0,
            sequence: FIRST_TEMP_SEQUENCE,
            temp: None,
            guard_errno: None,
            fail: None,
            vanish_on_read: false,
            lock_returns: 0,
            log: Vec::new(),
            temp_names: Vec::new(),
        }
    }

    fn outcome(&self, step: &'static str) -> StepOutcome {
        if self.fail == Some(step) {
            failure(IoErrorKind::Other, step)
        } else {
            StepOutcome::Done
        }
    }

    fn perform(&mut self, step: &LockStep) -> StepOutcome {
        match step {
            LockStep::ProbeDirectory => {
                self.log.push("probe dir");
                StepOutcome::Answer(self.dir_exists)
            }
            LockStep::CreateDirectory => {
                self.log.push("create dir");
                self.outcome("create dir")
            }
            LockStep::ShareDirectory => {
                self.log.push("share dir");
                self.outcome("share dir")
            }
            LockStep::OpenGuard => {
                self.log.push("open guard");
                self.outcome("open guard")
            }
            LockStep::ShareGuard => {
                self.log.push("share guard");
                self.outcome("share guard")
            }
            LockStep::LockGuard => {
                self.log.push("lock guard");
                match self.guard_errno {
                    Some(errno) => StepOutcome::Errno(errno),
                    None => StepOutcome::Done,
                }
            }
            LockStep::Identify => {
                self.log.push("identify");
                StepOutcome::Start(AttemptStart {
                    identity: ProcessIdentity {
                        pid: OWN_PID,
                        comm: Some("lqosd\n".to_string()),
                        first_argument: None,
                        unix_seconds: Some(1_800_000_001),
                    },
                    process_id: OWN_PID as u32,
                    unix_nanos: Some(99),
                })
            }
            LockStep::NameTemp(_) => {
                let drawn = self.sequence;
                self.sequence = next_temp_sequence(drawn);
                StepOutcome::Sequence(drawn)
            }
            LockStep::CreateTemp(_, name) => {
                self.log.push("create temp");
                self.temp_names.push(name.clone());
                if self.temp_names_taken > 0 {
                    self.temp_names_taken -= 1;
                    failure(IoErrorKind::AlreadyExists, "taken")
                } else if self.fail == Some("create temp") {
                    self.outcome("create temp")
                } else {
                    self.temp = Some((name.clone(), String::new()));
                    StepOutcome::Done
                }
            }
            LockStep::WriteTemp(text) => {
                self.log.push("write temp");
                let (name, _) = self.temp.take().expect("a temporary file");
                self.temp = Some((name, text.clone()));
                self.outcome("write temp")
            }
            LockStep::SyncTemp => {
                self.log.push("sync temp");
                self.outcome("sync temp")
            }
            LockStep::LinkTemp => {
                self.log.push("link");
                if self.lock_file.is_some() {
                    failure(IoErrorKind::AlreadyExists, "lock file exists")
                } else if self.fail == Some("link") {
                    self.outcome("link")
                } else {
                    self.lock_file = self.temp.as_ref().map(|(_, text)| text.clone());
                    StepOutcome::Done
                }
            }
            LockStep::RemoveTemp(_) => {
                self.log.push("remove temp");
                if self.fail != Some("remove temp") {
                    self.temp = None;
                }
                self.outcome("remove temp")
            }
            LockStep::ShareLock => {
                self.log.push("share lock");
                self.outcome("share lock")
            }
            LockStep::ReadLock => {
                self.log.push("read lock");
                if self.fail == Some("read lock") {
                    self.outcome("read lock")
                } else if self.vanish_on_read {
                    failure(IoErrorKind::NotFound, "gone")
                } else {
                    StepOutcome::Contents(self.lock_file.clone().expect("a lock file"))
                }
            }
            LockStep::ProbeHolder(holder) => {
                self.log.push("probe holder");
                if self.live.contains(&holder.pid) {
                    StepOutcome::Done
                } else {
                    StepOutcome::Errno(self.probe_errno)
                }
            }
            LockStep::RemoveStale => {
                self.log.push("remove lock");
                if self.fail == Some("remove lock") {
                    self.outcome("remove lock")
                } else {
                    if self.lock_returns > 0 {
                        self.lock_returns -= 1;
                    } else {
                        self.lock_file = None;
                    }
                    StepOutcome::Done
                }
            }
            LockStep::Finished(_) => unreachable!("nothing is left to do"),
        }
    }

    fn acquire(&mut self) -> Result<FileLock, LockError> {
        let mut acquisition = FileLock::new_for_operation("load effective overrides");
        let mut count = 0;
        while !matches!(acquisition.step, LockStep::Finished(_)) {
            let outcome = self.perform(&acquisition.step);
            acquisition = acquisition.advance(outcome);
            count += 1;
            assert!(count <= 78);
        }
        match acquisition.step {
            LockStep::Finished(result) => result,
            _ => unreachable!("the loop ends with the acquisition"),
        }
    }

    fn refusal(&mut self) -> String {
        self.acquire()
            .expect_err("the lock should be refused")
            .message()
    }
}

fn failure(kind: IoErrorKind, message: &str) -> StepOutcome {
    StepOutcome::Failed(IoFailure {
        kind,
        message: message.to_string(),
    })
}

#[test]
fn default_paths_are_under_run() {
    let acquisition = FileLock::new_for_operation("save");
    assert_eq!(LOCK_PATH, "/run/lqos/lqos_overrides.lock");
    assert_eq!(LOCK_GUARD_PATH, "/run/lqos/lqos_overrides.lock.guard");
    assert_eq!(acquisition.operation, "save");
    assert_eq!(acquisition.paths.lock_path, LOCK_PATH);
    assert_eq!(acquisition.paths.lock_dir, LOCK_DIR);
    assert_eq!(acquisition.paths.lock_dir_perms, LOCK_DIR_PERMS);
    assert_eq!(acquisition.paths.guard_path, LOCK_GUARD_PATH);
    assert_eq!(LOCK_DIR, "/run/lqos");
    assert_eq!(LOCK_CONTENTION_CODE, "LQOS_OVERRIDES_LOCKED");
    assert_eq!(LOCK_DIR_MODE, 0o777);
    assert_eq!(LOCK_FILE_MODE, 0o666);
}

#[test]
fn other_paths_can_be_given() {
    let acquisition = FileLock::new_at("op", "/t/lock", "/t", "/p", "/t/guard");
    assert_eq!(acquisition.paths.lock_path, "/t/lock");
    assert_eq!(acquisition.paths.lock_dir, "/t");
    assert_eq!(acquisition.paths.lock_dir_perms, "/p");
    assert_eq!(acquisition.paths.guard_path, "/t/guard");
}

#[test]
fn lock_file_records_operation_metadata() {
    let mut machine = Machine::new(None);
    machine.dir_exists = false;
    let lock = machine.acquire().expect("failed to create lock");
    assert_eq!(lock.lock_path, LOCK_PATH);

    let contents = machine.lock_file.clone().unwrap();
    assert_eq!(
        contents,
        "pid=4242\nprocess=lqosd\noperation=load effective overrides\ncreated_unix=1800000001\n"
    );
    assert_eq!(
        machine.log,
        vec![
            "probe dir",
            "create dir",
            "share dir",
            "open guard",
            "share guard",
            "lock guard",
            "identify",
            "create temp",
            "write temp",
            "sync temp",
            "link",
            "remove temp",
            "share lock",
        ]
    );
    assert!(machine.temp.is_none());
}

#[test]
fn live_lock_error_reports_existing_holder_metadata() {
    let mut machine = Machine::new(Some(&format!(
        "pid={OWN_PID}\nprocess=test-holder\noperation=save overrides\ncreated_unix=1800000000\n"
    )));
    let message = machine.refusal();

    assert_eq!(
        message,
        "LQOS_OVERRIDES_LOCKED: The LibreQoS overrides files are locked by another process \
         (pid=4242, process=test-holder, operation=save overrides, created_unix=1800000000)."
    );
    assert!(machine.lock_file.is_some());
    assert!(!machine.log.contains(&"remove lock"));
    assert!(machine.temp.is_none());
}

#[test]
fn holder_of_another_user_counts_as_live() {
    let mut machine = Machine::new(Some("77"));
    machine.probe_errno = EPERM;
    assert!(machine.refusal().contains("(pid=77)"));
    assert!(machine.lock_file.is_some());
}

#[test]
fn second_process_sees_the_first_one() {
    let mut machine = Machine::new(None);
    machine.acquire().expect("the lock is free");
    let message = machine.refusal();
    assert!(message.contains("pid=4242, process=lqosd, operation=load effective overrides"));
}

#[test]
fn lock_written_without_a_clock_excludes_others() {
    let identity = ProcessIdentity {
        pid: 77,
        comm: None,
        first_argument: Some("holder".to_string()),
        unix_seconds: None,
    };
    let text = LockMetadata::current("save", &identity).serialize();
    let mut machine = Machine::new(Some(&text));
    assert!(machine
        .refusal()
        .contains("lock metadata unreadable: invalid digit found in string"));
    assert_eq!(machine.lock_file, Some(text));
}

#[test]
fn held_lock_is_refused_as_contention() {
    for seconds in [Some(7), None] {
        for fail in [None, Some("read lock"), Some("remove temp")] {
            let identity = ProcessIdentity {
                pid: 77,
                comm: Some("holder\n".to_string()),
                first_argument: None,
                unix_seconds: seconds,
            };
            let text = LockMetadata::current("save", &identity).serialize();
            let mut machine = Machine::new(Some(&text));
            machine.live.push(77);
            machine.fail = fail;
            let message = machine.refusal();
            assert!(message.starts_with("LQOS_OVERRIDES_LOCKED: "), "{message}");
            let readable = seconds.is_some() && fail != Some("read lock");
            assert_eq!(message.contains("(pid=77, process=holder"), readable);
            assert_eq!(message.contains("lock metadata unreadable"), !readable);
            assert_eq!(machine.lock_file, Some(text));
        }
    }
}

#[test]
fn malformed_lock_file_is_reported_as_lock_contention() {
    let mut machine = Machine::new(Some("pid="));
    let message = machine.refusal();

    assert!(message.contains("locked by another process"));
    assert!(message.contains("lock metadata unreadable"));
    assert!(message.contains("cannot parse integer from empty string"));
    assert!(machine.lock_file.is_some());
}

#[test]
fn truncated_metadata_lock_missing_pid_is_reported_as_contention() {
    let mut machine = Machine::new(Some(
        "process=test-holder\noperation=save overrides\ncreated_unix=1800000000\n",
    ));
    let message = machine.refusal();

    assert_eq!(
        message,
        "LQOS_OVERRIDES_LOCKED: The LibreQoS overrides files are locked by another process \
         (lock metadata unreadable: The LibreQoS overrides lock file does not contain a process \
         id.)."
    );
}

#[test]
fn stale_legacy_lock_is_replaced_with_metadata_lock() {
    let mut machine = Machine::new(Some("2147483647\n"));
    machine
        .acquire()
        .expect("stale legacy lock should be replaceable");
    let contents = machine.lock_file.unwrap();

    assert!(contents.contains(&format!("pid={OWN_PID}")));
    assert!(contents.contains("operation=load effective overrides"));
}

#[test]
fn stale_structured_lock_is_replaced_with_metadata_lock() {
    let mut machine = Machine::new(Some(
        "pid=2147483647\nprocess=old-holder\noperation=save overrides\ncreated_unix=1800000000\n",
    ));
    machine
        .acquire()
        .expect("stale structured lock should be replaceable");
    let contents = machine.lock_file.unwrap();

    assert!(contents.contains(&format!("pid={OWN_PID}")));
    assert!(contents.contains("operation=load effective overrides"));
}

#[test]
fn lock_that_keeps_returning_is_given_up_after_three_attempts() {
    let mut machine = Machine::new(Some("77"));
    machine.lock_returns = 3;
    assert_eq!(
        machine.refusal(),
        "Unable to acquire the LibreQoS overrides lock after replacing a stale lock."
    );
    assert_eq!(machine.log.iter().filter(|s| **s == "link").count(), 3);
    assert_eq!(
        machine.log.iter().filter(|s| **s == "remove lock").count(),
        3
    );
}

#[test]
fn lock_that_vanishes_is_tried_again() {
    let mut machine = Machine::new(Some("77"));
    machine.vanish_on_read = true;
    assert_eq!(
        machine.refusal(),
        "Unable to acquire the LibreQoS overrides lock after replacing a stale lock."
    );
    assert_eq!(machine.log.iter().filter(|s| **s == "link").count(), 3);
    assert!(!machine.log.contains(&"remove lock"));
}

#[test]
fn failures_of_files_end_the_acquisition() {
    for step in [
        "create dir",
        "share dir",
        "open guard",
        "share guard",
        "create temp",
        "write temp",
        "sync temp",
        "link",
        "share lock",
    ] {
        let mut machine = Machine::new(None);
        machine.dir_exists = false;
        machine.fail = Some(step);
        assert_eq!(machine.refusal(), step);
        let left = step == "write temp" || step == "sync temp";
        assert_eq!(machine.temp.is_some(), left, "{step}");
        let removed = if step == "link" { "remove temp" } else { step };
        assert_eq!(machine.log.last(), Some(&removed));
    }
    let mut machine = Machine::new(Some("77"));
    machine.fail = Some("remove lock");
    assert_eq!(machine.refusal(), "remove lock");
    let mut machine = Machine::new(Some("77"));
    machine.fail = Some("read lock");
    assert!(machine
        .refusal()
        .ends_with("(lock metadata unreadable: read lock)."));
}

#[test]
fn failure_to_remove_the_temporary_file_does_not_matter() {
    let mut machine = Machine::new(None);
    machine.fail = Some("remove temp");
    machine.acquire().expect("the lock is free");
    assert!(machine.temp.is_some());
}

#[test]
fn lock_is_granted_when_nothing_fails() {
    for dir_exists in [true, false] {
        let mut machine = Machine::new(None);
        machine.dir_exists = dir_exists;
        let lock = machine.acquire().expect("the lock is free");
        assert_eq!(lock.lock_path, LOCK_PATH);
        assert!(!machine.log.contains(&"read lock"));
        assert!(machine.temp.is_none());
    }
}

#[test]
fn lock_is_granted_after_one_or_two_stale_files() {
    for returns in [0, 1] {
        let mut machine = Machine::new(Some("77"));
        machine.lock_returns = returns;
        machine.temp_names_taken = 7;
        let lock = machine.acquire().expect("the stale lock is replaced");
        assert_eq!(lock.lock_path, LOCK_PATH);
        let links = machine.log.iter().filter(|s| **s == "link").count();
        assert_eq!(links, returns + 2);
        assert!(machine.temp.is_none());
    }
    let mut machine = Machine::new(Some("77"));
    machine.lock_returns = 2;
    assert_eq!(
        machine.refusal(),
        "Unable to acquire the LibreQoS overrides lock after replacing a stale lock."
    );
}

#[test]
fn sequence_goes_on_by_one_and_starts_over() {
    assert_eq!(FIRST_TEMP_SEQUENCE, 0);
    assert_eq!(next_temp_sequence(0), 1);
    assert_eq!(next_temp_sequence(41), 42);
    assert_eq!(next_temp_sequence(u64::MAX - 1), u64::MAX);
    assert_eq!(next_temp_sequence(u64::MAX), 0);
}

#[test]
fn names_of_two_acquisitions_differ() {
    let mut machine = Machine::new(Some("77"));
    machine.temp_names_taken = 3;
    machine.acquire().expect("the stale lock is replaced");
    machine.lock_file = None;
    machine.acquire().expect("the lock is free");
    assert_eq!(machine.temp_names.len(), 6);
    for (i, name) in machine.temp_names.iter().enumerate() {
        assert_eq!(*name, format!(".lqos_overrides.lock.4242.99.{i}.tmp"));
    }
}

#[test]
fn guard_that_cannot_be_locked_is_reported_with_its_error() {
    let mut machine = Machine::new(None);
    machine.guard_errno = Some(9);
    assert_eq!(
        machine.refusal(),
        "Unable to acquire LibreQoS overrides lock guard: EBADF: Bad file number"
    );
    assert!(machine.lock_file.is_none());
    assert!(!machine.log.contains(&"identify"));
}

#[test]
fn taken_temporary_names_are_skipped() {
    let mut machine = Machine::new(None);
    machine.temp_names_taken = 7;
    machine.acquire().expect("the eighth name is free");
    assert_eq!(machine.temp_names.len(), 8);
    assert_eq!(machine.temp_names[0], ".lqos_overrides.lock.4242.99.0.tmp");
    assert_eq!(machine.temp_names[7], ".lqos_overrides.lock.4242.99.7.tmp");

    let mut machine = Machine::new(None);
    machine.temp_names_taken = 8;
    assert_eq!(
        machine.refusal(),
        "Unable to create a unique temporary LibreQoS overrides lock file after 8 attempts."
    );
    assert_eq!(machine.temp_names.len(), LOCK_TEMP_CREATE_ATTEMPTS);
}

#[test]
fn temporary_names_are_made_of_three_numbers() {
    assert_eq!(
        temp_lock_file_name(1, 1_800_000_000_000_000_000, u64::MAX),
        ".lqos_overrides.lock.1.1800000000000000000.18446744073709551615.tmp"
    );
}

#[test]
fn temporary_names_differ_if_any_number_does() {
    let numbers = [0, 1, 10, 11, 110, 111];
    let mut names = Vec::new();
    for process_id in numbers {
        for nanos in numbers {
            for sequence in numbers {
                let name = temp_lock_file_name(process_id, nanos as u128, sequence as u64);
                assert!(!names.contains(&name), "{name}");
                names.push(name);
            }
        }
    }
    assert_eq!(names.len(), 216);
}

#[test]
fn only_a_missing_process_frees_its_lock() {
    assert!(FileLock::is_lock_valid(None));
    assert!(FileLock::is_lock_valid(Some(EPERM)));
    assert!(FileLock::is_lock_valid(Some(0)));
    assert!(FileLock::is_lock_valid(Some(-ESRCH)));
    assert!(!FileLock::is_lock_valid(Some(ESRCH)));
    for errno in 4..200 {
        assert!(FileLock::is_lock_valid(Some(errno)));
    }
}

#[test]
fn only_missing_files_count_as_not_found() {
    let io = |kind| {
        LockFileError::Io(IoFailure {
            kind,
            message: "x".to_string(),
        })
    };
    assert!(FileLock::is_not_found_error(&io(IoErrorKind::NotFound)));
    assert!(!FileLock::is_not_found_error(&io(IoErrorKind::AlreadyExists)));
    assert!(!FileLock::is_not_found_error(&io(IoErrorKind::Other)));
    assert!(!FileLock::is_not_found_error(&LockFileError::MissingPid));
}

#[test]
fn read_failures_are_passed_on() {
    let failure = IoFailure {
        kind: IoErrorKind::Other,
        message: "no permission".to_string(),
    };
    let error = FileLock::read_lock_metadata(Err(failure)).expect_err("nothing was read");
    assert_eq!(error.message(), "no permission");
    assert_eq!(
        FileLock::read_lock_metadata(Ok("5".to_string()))
            .unwrap()
            .pid,
        5
    );
}
