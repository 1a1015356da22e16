//! What the content of a lock file means, said of its lines and of what is read and written.

use crate::{decimal, lock_metadata, text, text_laws};
use crate::decimal::NumberError;
use crate::lock_metadata::{
    current_process_name, sanitize_lock_field, LockFileError, LockMetadata, ProcessIdentity,
};
use vstd::prelude::*;

verus! {

/// Whether a line gives `key` this value: what stands before its first equals sign is the key
/// and what stands after it the value, each without the whitespace around it.
pub open spec fn says(line: Seq<char>, key: Seq<char>, value: Seq<char>) -> bool {
    exists|before: Seq<char>, after: Seq<char>|
        #![trigger before + seq!['='] + after]
        {
            &&& line == before + seq!['='] + after
            &&& !before.contains('=')
            &&& text_laws::is_trimmed(before, key)
            &&& text_laws::is_trimmed(after, value)
        }
}

/// What is trimmed is the trimmed form.
proof fn lemma_is_trimmed(s: Seq<char>, t: Seq<char>)
    requires
        text_laws::is_trimmed(s, t),
    ensures
        t == text::trimmed(s),
{
    let (before, after) = choose|before: Seq<char>, after: Seq<char>|
        #![trigger before + t + after]
        {
            &&& s == before + t + after
            &&& text_laws::blank(before)
            &&& text_laws::blank(after)
            &&& t.len() > 0 ==> !text::whitespace(t.first()) && !text::whitespace(t.last())
        };
    text::lemma_trimmed_after(before + t, after);
    text::lemma_trimmed_before(before, t);
    text::lemma_trimmed_fixed(t);
}

/// A line says one thing at most, namely its entry.
proof fn lemma_says(line: Seq<char>, key: Seq<char>, value: Seq<char>)
    ensures
        says(line, key, value) <==> lock_metadata::entry(line) == Some((key, value)),
{
    text_laws::lemma_split(line, '=');
    if says(line, key, value) {
        let (before, after) = choose|before: Seq<char>, after: Seq<char>|
            #![trigger before + seq!['='] + after]
            {
                &&& line == before + seq!['='] + after
                &&& !before.contains('=')
                &&& text_laws::is_trimmed(before, key)
                &&& text_laws::is_trimmed(after, value)
            };
        text::lemma_split_step(before, '=', after);
        lemma_is_trimmed(before, key);
        lemma_is_trimmed(after, value);
    }
    if lock_metadata::entry(line) == Some((key, value)) {
        let (before, after) = text::split_at_first(line, '=')->0;
        text_laws::lemma_trimmed_is_trimmed(before);
        text_laws::lemma_trimmed_is_trimmed(after);
        assert(line == before + seq!['='] + after);
        assert(says(line, key, value));
    }
}

/// Whether `value` is what the last of the lines that give `key` a value gives it.
pub open spec fn last_says(lines: Seq<Seq<char>>, key: Seq<char>, value: Seq<char>) -> bool {
    exists|i: int|
        {
            &&& 0 <= i < lines.len()
            &&& says(#[trigger] lines[i], key, value)
            &&& forall|j: int, other: Seq<char>|
                i < j < lines.len() ==> !#[trigger] says(lines[j], key, other)
        }
}

/// Whether no line gives `key` a value.
pub open spec fn none_says(lines: Seq<Seq<char>>, key: Seq<char>) -> bool {
    forall|j: int, other: Seq<char>|
        0 <= j < lines.len() ==> !#[trigger] says(lines[j], key, other)
}

proof fn lemma_last_value(lines: Seq<Seq<char>>, key: Seq<char>)
    ensures
        match lock_metadata::last_value(lines, key) {
            Some(value) => last_says(lines, key, value),
            None => none_says(lines, key),
        },
    decreases lines.len(),
{
    if lines.len() > 0 {
        let last = lines.last();
        let before = lines.drop_last();
        let n = before.len() as int;
        lemma_last_value(before, key);
        assert forall|value: Seq<char>| #[trigger] says(last, key, value)
            <==> lock_metadata::entry(last) == Some((key, value)) by {
            lemma_says(last, key, value);
        }
        assert(lines[n] == last);
        assert forall|j: int| 0 <= j < n implies #[trigger] lines[j] == before[j] by {}
        match lock_metadata::entry(last) {
            Some((k, value)) if k == key => {
                assert(says(lines[n], key, value));
                assert(last_says(lines, key, value));
            },
            _ => {
                match lock_metadata::last_value(before, key) {
                    Some(value) => {
                        let i = choose|i: int|
                            {
                                &&& 0 <= i < before.len()
                                &&& says(#[trigger] before[i], key, value)
                                &&& forall|j: int, other: Seq<char>|
                                    i < j < before.len() ==> !#[trigger] says(before[j], key, other)
                            };
                        assert(says(lines[i], key, value));
                        assert forall|j: int, other: Seq<char>|
                            i < j < lines.len() implies !#[trigger] says(lines[j], key, other) by {
                            if j < n {
                                assert(!says(before[j], key, other));
                            }
                        }
                    },
                    None => {
                        assert forall|j: int, other: Seq<char>|
                            0 <= j < lines.len() implies !#[trigger] says(lines[j], key, other) by {
                            if j < n {
                                assert(!says(before[j], key, other));
                            }
                        }
                    },
                }
            },
        }
    }
}

/// Whether a line gives the process id or the creation time a value that is no such number,
/// for this reason.
pub open spec fn is_faulty(line: Seq<char>, e: NumberError) -> bool {
    ||| exists|value: Seq<char>| #[trigger]
        says(line, "pid"@, value) && decimal::number_i32(value) == Err::<int, NumberError>(e)
    ||| exists|value: Seq<char>| #[trigger]
        says(line, "created_unix"@, value) && decimal::number_u64(value) == Err::<
            nat,
            NumberError,
        >(e)
}

proof fn lemma_line_fault(line: Seq<char>, e: NumberError)
    ensures
        is_faulty(line, e) <==> lock_metadata::line_fault(line) == Some(e),
{
    lock_metadata::lemma_keys_differ();
    assert forall|value: Seq<char>| #[trigger] says(line, "pid"@, value)
        <==> lock_metadata::entry(line) == Some(("pid"@, value)) by {
        lemma_says(line, "pid"@, value);
    }
    assert forall|value: Seq<char>| #[trigger] says(line, "created_unix"@, value)
        <==> lock_metadata::entry(line) == Some(("created_unix"@, value)) by {
        lemma_says(line, "created_unix"@, value);
    }
    if lock_metadata::line_fault(line) == Some(e) {
        let (key, value) = lock_metadata::entry(line)->0;
        assert(says(line, key, value)) by {
            lemma_says(line, key, value);
        }
    }
}

/// Whether the first line with a fault has this one.
pub open spec fn first_is_faulty(lines: Seq<Seq<char>>, e: NumberError) -> bool {
    exists|i: int|
        {
            &&& 0 <= i < lines.len()
            &&& is_faulty(#[trigger] lines[i], e)
            &&& forall|j: int, other: NumberError|
                0 <= j < i ==> !#[trigger] is_faulty(lines[j], other)
        }
}

/// Whether no line has a fault.
pub open spec fn none_is_faulty(lines: Seq<Seq<char>>) -> bool {
    forall|j: int, other: NumberError|
        0 <= j < lines.len() ==> !#[trigger] is_faulty(lines[j], other)
}

proof fn lemma_first_fault(lines: Seq<Seq<char>>)
    ensures
        match lock_metadata::first_fault(lines) {
            Some(e) => first_is_faulty(lines, e),
            None => none_is_faulty(lines),
        },
    decreases lines.len(),
{
    if lines.len() > 0 {
        let before = lines.drop_last();
        let n = before.len() as int;
        lemma_first_fault(before);
        assert forall|j: int| 0 <= j < n implies #[trigger] lines[j] == before[j] by {}
        assert forall|e: NumberError| #[trigger] is_faulty(lines[n], e)
            <==> lock_metadata::line_fault(lines.last()) == Some(e) by {
            lemma_line_fault(lines[n], e);
        }
        match lock_metadata::first_fault(before) {
            Some(e) => {
                let i = choose|i: int|
                    {
                        &&& 0 <= i < before.len()
                        &&& is_faulty(#[trigger] before[i], e)
                        &&& forall|j: int, other: NumberError|
                            0 <= j < i ==> !#[trigger] is_faulty(before[j], other)
                    };
                assert(is_faulty(lines[i], e));
                assert forall|j: int, other: NumberError| 0 <= j < i implies !#[trigger] is_faulty(
                    lines[j],
                    other,
                ) by {
                    assert(!is_faulty(before[j], other));
                }
            },
            None => {
                assert forall|j: int, other: NumberError| 0 <= j < n implies !#[trigger] is_faulty(
                    lines[j],
                    other,
                ) by {
                    assert(!is_faulty(before[j], other));
                }
                match lock_metadata::line_fault(lines.last()) {
                    Some(e) => {
                        assert(is_faulty(lines[n], e));
                    },
                    None => {},
                }
            },
        }
    }
}

/// Whether `field` is what the lines say of `key`: the last value, or nothing if there is none.
pub open spec fn field_says(
    lines: Seq<Seq<char>>,
    key: Seq<char>,
    field: Option<String>,
) -> bool {
    match field {
        Some(value) => last_says(lines, key, value@),
        None => none_says(lines, key),
    }
}

/// What a lock file says of its holder. A file that is a process id and nothing else gives that
/// id. Else each line gives a key a value, and of each key the last value counts. A process id
/// or a creation time that is no number refuses the file, the first such line first, and so
/// does the lack of a process id.
pub proof fn lock_file_means_what_its_lines_say(
    contents: &str,
    r: Result<LockMetadata, LockFileError>,
)
    requires
        call_ensures(LockMetadata::parse, (contents,), r),
    ensures
        ({
            let rows = text::lines_of(contents@);
            match decimal::number_i32(text::trimmed(contents@)) {
                Ok(pid) => r matches Ok(m) && m.pid == pid && m.process is None && m.operation
                    is None && m.created_unix is None,
                Err(_) => match r {
                    Err(LockFileError::Io(_)) => false,
                    Err(LockFileError::Number(e)) => first_is_faulty(rows, e),
                    Err(LockFileError::MissingPid) => none_is_faulty(rows) && none_says(
                        rows,
                        "pid"@,
                    ),
                    Ok(m) => {
                        &&& none_is_faulty(rows)
                        &&& exists|pid: Seq<char>| #[trigger]
                            last_says(rows, "pid"@, pid) && decimal::number_i32(pid) == Ok::<
                                int,
                                NumberError,
                            >(m.pid as int)
                        &&& field_says(rows, "process"@, m.process)
                        &&& field_says(rows, "operation"@, m.operation)
                        &&& match m.created_unix {
                            Some(n) => exists|seconds: Seq<char>| #[trigger]
                                last_says(rows, "created_unix"@, seconds) && decimal::number_u64(
                                    seconds,
                                ) == Ok::<nat, NumberError>(n as nat),
                            None => none_says(rows, "created_unix"@),
                        }
                    },
                },
            }
        }),
{
    let rows = text::lines_of(contents@);
    lemma_first_fault(rows);
    lemma_last_value(rows, "pid"@);
    lemma_last_value(rows, "process"@);
    lemma_last_value(rows, "operation"@);
    lemma_last_value(rows, "created_unix"@);
    if decimal::number_i32(text::trimmed(contents@)) is Err && r is Ok {
        let pid = lock_metadata::last_value(rows, "pid"@)->0;
        assert(last_says(rows, "pid"@, pid));
        lemma_last_is_a_number(rows, pid);
        match lock_metadata::last_value(rows, "created_unix"@) {
            Some(seconds) => {
                assert(last_says(rows, "created_unix"@, seconds));
                lemma_last_is_a_time(rows, seconds);
            },
            None => {},
        }
    }
}

proof fn lemma_last_is_a_number(rows: Seq<Seq<char>>, pid: Seq<char>)
    requires
        none_is_faulty(rows),
        last_says(rows, "pid"@, pid),
    ensures
        decimal::number_i32(pid) is Ok,
{
    let i = choose|i: int|
        {
            &&& 0 <= i < rows.len()
            &&& says(#[trigger] rows[i], "pid"@, pid)
            &&& forall|j: int, other: Seq<char>|
                i < j < rows.len() ==> !#[trigger] says(rows[j], "pid"@, other)
        };
    if let Err(e) = decimal::number_i32(pid) {
        assert(is_faulty(rows[i], e));
    }
}

proof fn lemma_last_is_a_time(rows: Seq<Seq<char>>, seconds: Seq<char>)
    requires
        none_is_faulty(rows),
        last_says(rows, "created_unix"@, seconds),
    ensures
        decimal::number_u64(seconds) is Ok,
{
    let i = choose|i: int|
        {
            &&& 0 <= i < rows.len()
            &&& says(#[trigger] rows[i], "created_unix"@, seconds)
            &&& forall|j: int, other: Seq<char>|
                i < j < rows.len() ==> !#[trigger] says(rows[j], "created_unix"@, other)
        };
    if let Err(e) = decimal::number_u64(seconds) {
        lemma_says(rows[i], "created_unix"@, seconds);
        assert(lock_metadata::line_fault(rows[i]) == Some(e)) by {
            lock_metadata::lemma_keys_differ();
        }
        lemma_line_fault(rows[i], e);
        assert(is_faulty(rows[i], e));
    }
}

/// `s` without line feeds and carriage returns.
pub open spec fn one_line(s: Seq<char>) -> Seq<char> {
    s.filter(|c: char| c != '\n' && c != '\r')
}

/// Sanitising drops line feeds and carriage returns, and keeps everything else in order.
pub proof fn sanitizing_drops_line_breaks(value: &str, r: String)
    requires
        call_ensures(sanitize_lock_field, (value,), r),
    ensures
        r@ == one_line(value@),
{
}

/// The name of a process is what its `comm` file says, without the whitespace around it and on
/// one line. If that is nothing, it is the first argument, on one line; and if that is nothing
/// either, there is no name.
pub proof fn process_is_named_by_comm_or_first_argument(
    comm: Option<&str>,
    first_argument: Option<&str>,
    r: Option<String>,
)
    requires
        call_ensures(current_process_name, (comm, first_argument), r),
    ensures
        forall|name: Seq<char>|
            #![trigger one_line(name)]
            comm is Some && text_laws::is_trimmed(comm->0@, name) && one_line(name).len() > 0 ==> (
            r matches Some(text) && text@ == one_line(name)),
        (comm matches Some(text) ==> one_line(text::trimmed(text@)).len() == 0) ==> match r {
            Some(text) => first_argument is Some && text@ == one_line(first_argument->0@)
                && text@.len() > 0,
            None => first_argument matches Some(text) ==> one_line(text@).len() == 0,
        },
{
    if let Some(text) = comm {
        assert forall|name: Seq<char>|
            #![trigger one_line(name)]
            text_laws::is_trimmed(text@, name) implies name == text::trimmed(text@) by {
            lemma_is_trimmed(text@, name);
        }
    }
}

/// A process writes its own id, its own name, the operation that it takes the lock for, and
/// the time.
pub proof fn process_writes_of_itself(
    operation: &str,
    identity: ProcessIdentity,
    comm: Option<&str>,
    first_argument: Option<&str>,
    name: Option<String>,
    r: LockMetadata,
)
    requires
        call_ensures(LockMetadata::current, (operation, &identity), r),
        match identity.comm {
            Some(text) => comm matches Some(t) && t@ == text@,
            None => comm is None,
        },
        match identity.first_argument {
            Some(text) => first_argument matches Some(t) && t@ == text@,
            None => first_argument is None,
        },
        call_ensures(current_process_name, (comm, first_argument), name),
    ensures
        r.pid == identity.pid,
        r.created_unix matches Some(n) ==> identity.unix_seconds == Some(n),
        r.created_unix is None ==> identity.unix_seconds is None,
        r.operation matches Some(text) && text@ == one_line(operation@),
        match name {
            Some(text) => r.process matches Some(t) && t@ == text@,
            None => r.process is None,
        },
{
    assert(r@.created_unix == lock_metadata::own_metadata(operation@, identity).created_unix);
    assert(r@.operation == lock_metadata::own_metadata(operation@, identity).operation);
    assert(r@.process == lock_metadata::own_metadata(operation@, identity).process);
}

/// A lock file is written as four lines: the process id, the process, the operation and the
/// time, with `unknown` for what is not known.
pub proof fn lock_file_is_written_as_four_lines(m: LockMetadata, pid: String, r: String)
    requires
        call_ensures(LockMetadata::serialize, (&m,), r),
        call_ensures(decimal::format_signed, (m.pid,), pid),
    ensures
        ({
            let process = match m.process {
                Some(text) => text@,
                None => "unknown"@,
            };
            let operation = match m.operation {
                Some(text) => text@,
                None => "unknown"@,
            };
            let created = match m.created_unix {
                Some(n) => decimal::decimal(n as nat),
                None => "unknown"@,
            };
            r@ == "pid="@ + pid@ + ("\nprocess="@ + process) + ("\noperation="@ + operation) + (
            "\ncreated_unix="@ + created) + "\n"@
        }),
{
    let process = match m.process {
        Some(text) => text@,
        None => "unknown"@,
    };
    let operation = match m.operation {
        Some(text) => text@,
        None => "unknown"@,
    };
    let created = match m.created_unix {
        Some(n) => decimal::decimal(n as nat),
        None => "unknown"@,
    };
    assert(r@ == "pid="@ + pid@ + "\nprocess="@ + process + "\noperation="@ + operation
        + "\ncreated_unix="@ + created + "\n"@);
    assert(r@ =~= "pid="@ + pid@ + ("\nprocess="@ + process) + ("\noperation="@ + operation) + (
    "\ncreated_unix="@ + created) + "\n"@);
}

/// What is added to the description of a holder for a text that is known and not empty.
pub open spec fn part(label: Seq<char>, field: Option<String>) -> Seq<char> {
    match field {
        Some(text) => if text@.len() == 0 {
            seq![]
        } else {
            label + text@
        },
        None => seq![],
    }
}

/// A holder is described by its process id, and then by each of the process, the operation and
/// the time that is known: knowing one more of them adds it at the end, unless it is empty.
pub proof fn holder_is_described_by_what_is_known(
    pid: i32,
    process: Option<String>,
    operation: Option<String>,
    seconds: u64,
    pid_text: String,
    bare: String,
    named: String,
    doing: String,
    full: String,
)
    requires
        call_ensures(decimal::format_signed, (pid,), pid_text),
        call_ensures(
            LockMetadata::describe_holder,
            (&LockMetadata { pid, process: None, operation: None, created_unix: None },),
            bare,
        ),
        call_ensures(
            LockMetadata::describe_holder,
            (&LockMetadata { pid, process, operation: None, created_unix: None },),
            named,
        ),
        call_ensures(
            LockMetadata::describe_holder,
            (&LockMetadata { pid, process, operation, created_unix: None },),
            doing,
        ),
        call_ensures(
            LockMetadata::describe_holder,
            (&LockMetadata { pid, process, operation, created_unix: Some(seconds) },),
            full,
        ),
    ensures
        bare@ == "pid="@ + pid_text@,
        named@ == bare@ + part(", process="@, process),
        doing@ == named@ + part(", operation="@, operation),
        full@ == doing@ + (", created_unix="@ + decimal::decimal(seconds as nat)),
{
    assert(bare@ =~= "pid="@ + pid_text@);
    assert(named@ =~= bare@ + part(", process="@, process));
    assert(doing@ =~= named@ + part(", operation="@, operation));
    assert(full@ =~= doing@ + (", created_unix="@ + decimal::decimal(seconds as nat)));
}

/// What is wrong with a lock file is said in words.
pub proof fn fault_of_a_lock_file_is_said(e: LockFileError, r: String)
    requires
        call_ensures(LockFileError::message, (&e,), r),
    ensures
        match e {
            LockFileError::Io(failure) => r@ == failure.message@,
            LockFileError::Number(NumberError::Empty) => r@
                == "cannot parse integer from empty string"@,
            LockFileError::Number(NumberError::InvalidDigit) => r@
                == "invalid digit found in string"@,
            LockFileError::Number(NumberError::PosOverflow) => r@
                == "number too large to fit in target type"@,
            LockFileError::Number(NumberError::NegOverflow) => r@
                == "number too small to fit in target type"@,
            LockFileError::MissingPid => r@
                == "The LibreQoS overrides lock file does not contain a process id."@,
        },
{
}

} // verus!
