//! The text of a lock file: who holds the lock, and for which operation.
//!
//! A lock file holds one `key=value` pair per line, or, in the older form, the
//! process id alone.

use crate::{decimal, text};
use crate::decimal::{
    format_signed, format_unsigned, parse_i32, parse_u64, NumberError,
};
use crate::text::{chars_of, lines, same_text, split_once, string_of, trim};
use vstd::prelude::*;

verus! {

/// What the logic needs to know of the kind of an I/O error.
#[derive(Clone, Copy, Debug, PartialEq, Eq, Structural)]
pub enum IoErrorKind {
    /// The file is not there.
    NotFound,
    /// The file is there already.
    AlreadyExists,
    /// Any other kind.
    Other,
}

/// An I/O error: its kind and its text.
#[derive(Clone, Debug, PartialEq, Eq)]
pub struct IoFailure {
    pub kind: IoErrorKind,
    pub message: String,
}

/// Why the metadata of a lock file could not be had.
#[derive(Clone, Debug, PartialEq, Eq)]
pub enum LockFileError {
    /// The file could not be opened or read.
    Io(IoFailure),
    /// The process id or the creation time is not a number.
    Number(NumberError),
    /// There is no process id.
    MissingPid,
}

/// Who holds a lock, and for which operation.
#[derive(Clone, Debug, PartialEq, Eq)]
pub struct LockMetadata {
    pub pid: i32,
    pub process: Option<String>,
    pub operation: Option<String>,
    pub created_unix: Option<u64>,
}

/// What the running process knows of itself: its id, the text of `/proc/self/comm`, its
/// first argument, and the seconds since the Unix epoch, each as far as it can be had.
#[derive(Clone, Debug, PartialEq, Eq)]
pub struct ProcessIdentity {
    pub pid: i32,
    pub comm: Option<String>,
    pub first_argument: Option<String>,
    pub unix_seconds: Option<u64>,
}

/// The mathematical content of a `LockMetadata`.
#[verifier::ext_equal]
pub struct LockMetadataView {
    pub pid: int,
    pub process: Option<Seq<char>>,
    pub operation: Option<Seq<char>>,
    pub created_unix: Option<nat>,
}

/// The mathematical content of an `IoFailure`.
#[verifier::ext_equal]
pub struct IoFailureView {
    pub kind: IoErrorKind,
    pub message: Seq<char>,
}

/// The mathematical content of a `LockFileError`.
#[verifier::ext_equal]
pub enum LockFileErrorView {
    Io(IoFailureView),
    Number(NumberError),
    MissingPid,
}

impl View for IoFailure {
    type V = IoFailureView;

    open spec fn view(&self) -> IoFailureView {
        IoFailureView { kind: self.kind, message: self.message@ }
    }
}

impl View for LockFileError {
    type V = LockFileErrorView;

    open spec fn view(&self) -> LockFileErrorView {
        match self {
            LockFileError::Io(failure) => LockFileErrorView::Io(failure@),
            LockFileError::Number(e) => LockFileErrorView::Number(*e),
            LockFileError::MissingPid => LockFileErrorView::MissingPid,
        }
    }
}

impl LockFileErrorView {
    /// The error in words.
    pub open spec fn text(self) -> Seq<char> {
        match self {
            LockFileErrorView::Io(failure) => failure.message,
            LockFileErrorView::Number(e) => e.message_spec(),
            LockFileErrorView::MissingPid =>
                "The LibreQoS overrides lock file does not contain a process id."@,
        }
    }
}

impl LockFileError {
    /// Says in words what is wrong.
    pub fn message(&self) -> (r: String)
        ensures
            r@ == self@.text(),
    {
        match self {
            LockFileError::Io(failure) => failure.message.as_str().to_owned(),
            LockFileError::Number(e) => e.message(),
            LockFileError::MissingPid =>
                "The LibreQoS overrides lock file does not contain a process id.".to_owned(),
        }
    }
}

impl View for LockMetadata {
    type V = LockMetadataView;

    open spec fn view(&self) -> LockMetadataView {
        LockMetadataView {
            pid: self.pid as int,
            process: text::optional_view(self.process),
            operation: text::optional_view(self.operation),
            created_unix: match self.created_unix {
                Some(seconds) => Some(seconds as nat),
                None => None,
            },
        }
    }
}

/// A key and its value, each without the whitespace around it.
pub open spec fn entry(line: Seq<char>) -> Option<(Seq<char>, Seq<char>)> {
    match text::split_at_first(line, '=') {
        Some((key, value)) => Some((text::trimmed(key), text::trimmed(value))),
        None => None,
    }
}

/// The value of `key` in the last of the lines that give one.
pub open spec fn last_value(lines: Seq<Seq<char>>, key: Seq<char>) -> Option<Seq<char>>
    decreases lines.len(),
{
    if lines.len() == 0 {
        None
    } else {
        match entry(lines.last()) {
            Some((k, value)) => if k == key {
                Some(value)
            } else {
                last_value(lines.drop_last(), key)
            },
            None => last_value(lines.drop_last(), key),
        }
    }
}

/// What is wrong with the number in a line, if the line must hold one.
pub open spec fn line_fault(line: Seq<char>) -> Option<NumberError> {
    match entry(line) {
        Some((key, value)) => if key == "pid"@ {
            decimal::number_i32(value).err()
        } else if key == "created_unix"@ {
            decimal::number_u64(value).err()
        } else {
            None
        },
        None => None,
    }
}

/// The fault of the first line that has one.
pub open spec fn first_fault(lines: Seq<Seq<char>>) -> Option<NumberError>
    decreases lines.len(),
{
    if lines.len() == 0 {
        None
    } else {
        match first_fault(lines.drop_last()) {
            Some(e) => Some(e),
            None => line_fault(lines.last()),
        }
    }
}

/// What a list of `key=value` lines says of the holder: of each key the last value
/// counts, and a process id is needed.
pub open spec fn metadata_of_lines(lines: Seq<Seq<char>>) -> Result<
    LockMetadataView,
    LockFileErrorView,
> {
    match first_fault(lines) {
        Some(e) => Err(LockFileErrorView::Number(e)),
        None => match last_value(lines, "pid"@) {
            None => Err(LockFileErrorView::MissingPid),
            Some(pid) => Ok(
                LockMetadataView {
                    pid: decimal::number_i32(pid).unwrap(),
                    process: last_value(lines, "process"@),
                    operation: last_value(lines, "operation"@),
                    created_unix: match last_value(lines, "created_unix"@) {
                        Some(seconds) => Some(decimal::number_u64(seconds).unwrap()),
                        None => None,
                    },
                },
            ),
        },
    }
}

/// What the text of a lock file says of the holder.
pub open spec fn metadata_of_text(contents: Seq<char>) -> Result<LockMetadataView, LockFileErrorView> {
    match decimal::number_i32(text::trimmed(contents)) {
        Ok(pid) => Ok(
            LockMetadataView { pid, process: None, operation: None, created_unix: None },
        ),
        Err(_) => metadata_of_lines(text::lines_of(contents)),
    }
}

/// The text of an optional field, `unknown` if it is not there.
pub open spec fn field_or_unknown(field: Option<Seq<char>>) -> Seq<char> {
    match field {
        Some(text) => text,
        None => "unknown"@,
    }
}

/// The text of an optional number, `unknown` if it is not there.
pub open spec fn number_or_unknown(number: Option<nat>) -> Seq<char> {
    match number {
        Some(n) => decimal::decimal(n),
        None => "unknown"@,
    }
}

/// The text with a label before it, or nothing if the text is empty or not there.
pub open spec fn labelled_part(label: Seq<char>, text: Option<Seq<char>>) -> Seq<char> {
    match text {
        Some(t) => if t.len() > 0 {
            label + t
        } else {
            seq![]
        },
        None => seq![],
    }
}

impl LockMetadataView {
    /// The text of a lock file with this content.
    pub open spec fn file_text(self) -> Seq<char> {
        "pid="@ + decimal::signed_decimal(self.pid) + "\nprocess="@ + field_or_unknown(
            self.process,
        ) + "\noperation="@ + field_or_unknown(self.operation) + "\ncreated_unix="@
            + number_or_unknown(self.created_unix) + "\n"@
    }

    /// The holder in words: the process id, then what else is known, skipping empty texts.
    pub open spec fn holder_text(self) -> Seq<char> {
        "pid="@ + decimal::signed_decimal(self.pid) + labelled_part(
            ", process="@,
            self.process,
        ) + labelled_part(", operation="@, self.operation) + match self.created_unix {
            Some(n) => ", created_unix="@ + decimal::decimal(n),
            None => seq![],
        }
    }
}

/// `s` without line feeds and carriage returns.
pub open spec fn without_line_breaks(s: Seq<char>) -> Seq<char> {
    s.filter(|c: char| c != '\n' && c != '\r')
}

/// The text, if it is not empty.
pub open spec fn unless_empty(s: Seq<char>) -> Option<Seq<char>> {
    if s.len() == 0 {
        None
    } else {
        Some(s)
    }
}

/// The name of a process: the text of its `comm` file if that says anything, else its
/// first argument if that says anything.
pub open spec fn process_name(
    comm: Option<Seq<char>>,
    first_argument: Option<Seq<char>>,
) -> Option<Seq<char>> {
    let from_comm = match comm {
        Some(text) => unless_empty(without_line_breaks(text::trimmed(text))),
        None => None,
    };
    match from_comm {
        Some(name) => Some(name),
        None => match first_argument {
            Some(text) => unless_empty(without_line_breaks(text)),
            None => None,
        },
    }
}

/// What the running process writes into its lock file.
pub open spec fn own_metadata(operation: Seq<char>, identity: ProcessIdentity) -> LockMetadataView {
    LockMetadataView {
        pid: identity.pid as int,
        process: process_name(
            text::optional_view(identity.comm),
            text::optional_view(identity.first_argument),
        ),
        operation: Some(without_line_breaks(operation)),
        created_unix: match identity.unix_seconds {
            Some(seconds) => Some(seconds as nat),
            None => None,
        },
    }
}

/// Removes line feeds and carriage returns, so that a field stays on its line.
pub fn sanitize_lock_field(value: &str) -> (r: String)
    ensures
        r@ == without_line_breaks(value@),
{
    let chars = chars_of(value);
    let mut r = String::new();
    let ghost keep = |c: char| c != '\n' && c != '\r';
    proof {
        reveal(Seq::filter);
        assert(value@.take(0).filter(keep) == Seq::<char>::empty());
    }
    for i in 0..chars.len()
        invariant
            chars@ == value@,
            keep == (|c: char| c != '\n' && c != '\r'),
            r@ == value@.take(i as int).filter(keep),
    {
        proof {
            reveal(Seq::filter);
            assert(value@.take(i + 1).drop_last() == value@.take(i as int));
        }
        let c = chars[i];
        if c != '\n' && c != '\r' {
            r.push(c);
        }
    }
    assert(value@.take(chars@.len() as int) == value@);
    r
}

/// The name that the running process gives itself in a lock file.
pub fn current_process_name(comm: Option<&str>, first_argument: Option<&str>) -> (r: Option<
    String,
>)
    ensures
        text::optional_view(r) == process_name(
            match comm {
                Some(text) => Some(text@),
                None => None,
            },
            match first_argument {
                Some(text) => Some(text@),
                None => None,
            },
        ),
{
    if let Some(text) = comm {
        let name = string_of(trim(chars_of(text).as_slice()).as_slice());
        let name = sanitize_lock_field(name.as_str());
        if !name.as_str().is_empty() {
            return Some(name);
        }
    }
    if let Some(text) = first_argument {
        let name = sanitize_lock_field(text);
        if !name.as_str().is_empty() {
            return Some(name);
        }
    }
    None
}

/// The fields gathered from the lines of a lock file.
struct Fields {
    pid: Option<i32>,
    process: Option<String>,
    operation: Option<String>,
    created_unix: Option<u64>,
}

impl Fields {
    /// Whether these are the last values in `lines`, none of which has a fault.
    spec fn gathered_from(self, lines: Seq<Seq<char>>) -> bool {
        &&& first_fault(lines) is None
        &&& match last_value(lines, "pid"@) {
            Some(text) => self.pid matches Some(pid) && decimal::number_i32(text) == Ok::<
                int,
                NumberError,
            >(pid as int),
            None => self.pid is None,
        }
        &&& text::optional_view(self.process) == last_value(lines, "process"@)
        &&& text::optional_view(self.operation) == last_value(lines, "operation"@)
        &&& match last_value(lines, "created_unix"@) {
            Some(text) => self.created_unix matches Some(n) && decimal::number_u64(text)
                == Ok::<nat, NumberError>(n as nat),
            None => self.created_unix is None,
        }
    }
}

/// The four keys differ.
pub proof fn lemma_keys_differ()
    ensures
        "pid"@ != "process"@,
        "pid"@ != "operation"@,
        "pid"@ != "created_unix"@,
        "process"@ != "operation"@,
        "process"@ != "created_unix"@,
        "operation"@ != "created_unix"@,
{
    reveal_strlit("pid");
    reveal_strlit("process");
    reveal_strlit("operation");
    reveal_strlit("created_unix");
    assert("pid"@.len() == 3 && "process"@.len() == 7 && "operation"@.len() == 9
        && "created_unix"@.len() == 12);
}

/// The fault of a prefix is the fault of the whole.
proof fn lemma_first_fault_stays(lines: Seq<Seq<char>>, n: int)
    requires
        0 <= n <= lines.len(),
        first_fault(lines.take(n)) is Some,
    ensures
        first_fault(lines) == first_fault(lines.take(n)),
    decreases lines.len(),
{
    if n < lines.len() {
        assert(lines.drop_last().take(n) == lines.take(n));
        lemma_first_fault_stays(lines.drop_last(), n);
    } else {
        assert(lines.take(n) == lines);
    }
}

/// Adds what one more line says.
fn gather_line(fields: Fields, line: &Vec<char>, Ghost(before): Ghost<Seq<Seq<char>>>) -> (r:
    Result<Fields, NumberError>)
    requires
        fields.gathered_from(before),
    ensures
        match r {
            Ok(f) => f.gathered_from(before.push(line@)),
            Err(e) => first_fault(before.push(line@)) == Some(e),
        },
{
    proof {
        lemma_keys_differ();
        assert(before.push(line@).drop_last() == before);
        assert(before.push(line@).last() == line@);
    }
    let mut fields = fields;
    match split_once(line.as_slice(), '=') {
        None => {},
        Some((key, value)) => {
            let key = trim(key.as_slice());
            let value = trim(value.as_slice());
            if same_text(key.as_slice(), "pid") {
                match parse_i32(value.as_slice()) {
                    Ok(pid) => {
                        fields.pid = Some(pid);
                    },
                    Err(e) => {
                        return Err(e);
                    },
                }
            } else if same_text(key.as_slice(), "process") {
                fields.process = Some(string_of(value.as_slice()));
            } else if same_text(key.as_slice(), "operation") {
                fields.operation = Some(string_of(value.as_slice()));
            } else if same_text(key.as_slice(), "created_unix") {
                match parse_u64(value.as_slice()) {
                    Ok(seconds) => {
                        fields.created_unix = Some(seconds);
                    },
                    Err(e) => {
                        return Err(e);
                    },
                }
            }
        },
    }
    Ok(fields)
}

impl LockMetadata {
    /// The metadata of the running process for `operation`.
    pub fn current(operation: &str, identity: &ProcessIdentity) -> (r: Self)
        ensures
            r@ == own_metadata(operation@, *identity),
    {
        let comm = match &identity.comm {
            Some(text) => Some(text.as_str()),
            None => None,
        };
        let first_argument = match &identity.first_argument {
            Some(text) => Some(text.as_str()),
            None => None,
        };
        Self {
            pid: identity.pid,
            process: current_process_name(comm, first_argument),
            operation: Some(sanitize_lock_field(operation)),
            created_unix: identity.unix_seconds,
        }
    }

    /// Reads the text of a lock file.
    pub fn parse(contents: &str) -> (r: Result<Self, LockFileError>)
        ensures
            match r {
                Ok(metadata) => metadata_of_text(contents@) == Ok::<
                    LockMetadataView,
                    LockFileErrorView,
                >(metadata@),
                Err(e) => metadata_of_text(contents@) == Err::<
                    LockMetadataView,
                    LockFileErrorView,
                >(e@),
            },
    {
        let chars = chars_of(contents);
        let text = trim(chars.as_slice());
        if let Ok(pid) = parse_i32(text.as_slice()) {
            return Ok(Self { pid, process: None, operation: None, created_unix: None });
        }
        let rows = lines(chars.as_slice());
        let ghost all = text::views(rows@);
        let mut fields = Fields { pid: None, process: None, operation: None, created_unix: None };
        assert(fields.gathered_from(all.take(0)));
        for i in 0..rows.len()
            invariant
                all == text::views(rows@),
                all == text::lines_of(contents@),
                decimal::number_i32(text::trimmed(contents@)) is Err,
                fields.gathered_from(all.take(i as int)),
        {
            assert(all.take(i as int).push(rows@[i as int]@) == all.take(i + 1));
            match gather_line(fields, &rows[i], Ghost(all.take(i as int))) {
                Ok(more) => {
                    fields = more;
                },
                Err(e) => {
                    proof {
                        lemma_first_fault_stays(all, i + 1);
                    }
                    return Err(LockFileError::Number(e));
                },
            }
        }
        assert(all.take(rows@.len() as int) == all);
        match fields.pid {
            None => Err(LockFileError::MissingPid),
            Some(pid) => Ok(
                Self {
                    pid,
                    process: fields.process,
                    operation: fields.operation,
                    created_unix: fields.created_unix,
                },
            ),
        }
    }

    /// Writes the text of a lock file.
    pub fn serialize(&self) -> (r: String)
        ensures
            r@ == self@.file_text(),
    {
        let mut r = "pid=".to_owned();
        r.append(format_signed(self.pid).as_str());
        r.append("\nprocess=");
        match &self.process {
            Some(process) => r.append(process.as_str()),
            None => r.append("unknown"),
        }
        r.append("\noperation=");
        match &self.operation {
            Some(operation) => r.append(operation.as_str()),
            None => r.append("unknown"),
        }
        r.append("\ncreated_unix=");
        match self.created_unix {
            Some(seconds) => r.append(format_unsigned(seconds as u128).as_str()),
            None => r.append("unknown"),
        }
        r.append("\n");
        r
    }

    /// Describes the holder for an error message.
    pub fn describe_holder(&self) -> (r: String)
        ensures
            r@ == self@.holder_text(),
    {
        let mut r = "pid=".to_owned();
        r.append(format_signed(self.pid).as_str());
        if let Some(process) = &self.process {
            if !process.as_str().is_empty() {
                r.append(", process=");
                r.append(process.as_str());
            }
        }
        if let Some(operation) = &self.operation {
            if !operation.as_str().is_empty() {
                r.append(", operation=");
                r.append(operation.as_str());
            }
        }
        if let Some(seconds) = self.created_unix {
            r.append(", created_unix=");
            r.append(format_unsigned(seconds as u128).as_str());
        }
        assert(r@ =~= self@.holder_text());
        r
    }
}

} // verus!
