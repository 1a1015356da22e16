//! What holds of writing and reading the text of a lock file.

use crate::{decimal, lock_metadata, text};
use crate::decimal::NumberError;
use crate::lock_metadata::{LockMetadataView, LockFileErrorView, ProcessIdentity};
use vstd::prelude::*;

verus! {

/// Whether the text fields hold no line feed, so that each stays on its line.
pub open spec fn fields_on_one_line(m: LockMetadataView) -> bool {
    &&& m.process matches Some(text) ==> !text.contains('\n')
    &&& m.operation matches Some(text) ==> !text.contains('\n')
}

/// What comes back of a text field: without the whitespace around it, and `unknown` where
/// there was none.
pub open spec fn read_back_field(field: Option<Seq<char>>) -> Option<Seq<char>> {
    Some(text::trimmed(lock_metadata::field_or_unknown(field)))
}

/// The four lines that a lock file is written as.
pub open spec fn file_lines(m: LockMetadataView) -> Seq<Seq<char>> {
    seq![
        "pid"@ + seq!['='] + decimal::signed_decimal(m.pid),
        "process"@ + seq!['='] + lock_metadata::field_or_unknown(m.process),
        "operation"@ + seq!['='] + lock_metadata::field_or_unknown(m.operation),
        "created_unix"@ + seq!['='] + lock_metadata::number_or_unknown(m.created_unix),
    ]
}

/// The file text is these lines, each with a line feed.
proof fn lemma_file_text_lines(m: LockMetadataView)
    ensures
        m.file_text() == file_lines(m)[0] + seq!['\n'] + (file_lines(m)[1] + seq!['\n'] + (
        file_lines(m)[2] + seq!['\n'] + (file_lines(m)[3] + seq!['\n'] + Seq::<char>::empty()))),
{
    reveal_strlit("pid");
    reveal_strlit("process");
    reveal_strlit("operation");
    reveal_strlit("created_unix");
    reveal_strlit("pid=");
    reveal_strlit("\nprocess=");
    reveal_strlit("\noperation=");
    reveal_strlit("\ncreated_unix=");
    reveal_strlit("\n");
    let eq = seq!['='];
    let nl = seq!['\n'];
    assert("pid="@ =~= "pid"@ + eq);
    assert("\nprocess="@ =~= nl + ("process"@ + eq));
    assert("\noperation="@ =~= nl + ("operation"@ + eq));
    assert("\ncreated_unix="@ =~= nl + ("created_unix"@ + eq));
    assert("\n"@ =~= nl);
    assert(m.file_text() =~= file_lines(m)[0] + nl + (file_lines(m)[1] + nl + (file_lines(m)[2] + nl
        + (file_lines(m)[3] + nl + Seq::<char>::empty()))));
}

/// A line made of a key and a value reads as that key and the trimmed value, also after the
/// carriage return at its end is gone.
proof fn lemma_entry_of_line(key: Seq<char>, value: Seq<char>)
    requires
        key.len() > 0,
        !text::whitespace(key.first()),
        !text::whitespace(key.last()),
        !key.contains('='),
    ensures
        lock_metadata::entry(
            text::without_carriage_return(key + seq!['='] + value),
        ) == Some((key, text::trimmed(value))),
{
    let line = key + seq!['='] + value;
    text::lemma_trimmed_fixed(key);
    if line.last() == '\r' {
        if value.len() == 0 {
            assert(line.last() == '=');
        }
        assert(value.last() == '\r');
        assert(line.drop_last() =~= key + seq!['='] + value.drop_last());
        text::lemma_split_step(key, '=', value.drop_last());
        text::lemma_trimmed_last(value);
    } else {
        text::lemma_split_step(key, '=', value);
    }
}

/// A decimal is on one line and has no whitespace around it.
proof fn lemma_decimal_is_plain(n: nat)
    ensures
        !decimal::decimal(n).contains('\n'),
        text::trimmed(decimal::decimal(n)) == decimal::decimal(n),
{
    decimal::lemma_decimal_digits(n);
    let s = decimal::decimal(n);
    assert(decimal::is_digit(s[0]));
    assert(decimal::is_digit(s[s.len() - 1]));
    text::lemma_trimmed_fixed(s);
}

/// A signed decimal is on one line and has no whitespace around it.
proof fn lemma_signed_decimal_is_plain(i: int)
    ensures
        !decimal::signed_decimal(i).contains('\n'),
        decimal::signed_decimal(i).len() > 0,
        text::trimmed(decimal::signed_decimal(i)) == decimal::signed_decimal(
            i,
        ),
{
    let s = decimal::signed_decimal(i);
    let n = if i < 0 {
        (-i) as nat
    } else {
        i as nat
    };
    decimal::lemma_decimal_digits(n);
    let d = decimal::decimal(n);
    assert forall|k: int| 0 <= k < s.len() implies s[k] != '\n' by {
        if i < 0 {
            if k > 0 {
                assert(s[k] == d[k - 1]);
                assert(decimal::is_digit(d[k - 1]));
            }
        } else {
            assert(decimal::is_digit(d[k]));
        }
    }
    assert(s.last() == d.last());
    assert(decimal::is_digit(d[d.len() - 1]));
    assert(decimal::is_digit(d[0]));
    text::lemma_trimmed_fixed(s);
}

/// The lines that are read are those that were written.
proof fn lemma_lines_of_file_text(m: LockMetadataView)
    requires
        fields_on_one_line(m),
    ensures
        text::lines_of(m.file_text()) == file_lines(m).map_values(
            |line: Seq<char>| text::without_carriage_return(line),
        ),
{
    lemma_file_text_lines(m);
    reveal_strlit("pid");
    reveal_strlit("process");
    reveal_strlit("operation");
    reveal_strlit("created_unix");
    reveal_strlit("unknown");
    lemma_signed_decimal_is_plain(m.pid);
    match m.created_unix {
        Some(n) => {
            lemma_decimal_is_plain(n);
        },
        None => {},
    }
    let l = file_lines(m);
    let nl = seq!['\n'];
    let none = Seq::<char>::empty();
    assert forall|k: int| 0 <= k < 4 implies !(#[trigger] l[k]).contains('\n') by {
        lemma_no_line_feed(
            "pid"@,
            decimal::signed_decimal(m.pid),
        );
        lemma_no_line_feed(
            "process"@,
            lock_metadata::field_or_unknown(m.process),
        );
        lemma_no_line_feed(
            "operation"@,
            lock_metadata::field_or_unknown(m.operation),
        );
        lemma_no_line_feed(
            "created_unix"@,
            lock_metadata::number_or_unknown(m.created_unix),
        );
    }
    text::lemma_lines_step(l[3], none);
    text::lemma_lines_step(l[2], l[3] + nl + none);
    text::lemma_lines_step(l[1], l[2] + nl + (l[3] + nl + none));
    text::lemma_lines_step(l[0], l[1] + nl + (l[2] + nl + (l[3] + nl + none)));
    assert(text::lines_of(none) == Seq::<Seq<char>>::empty());
    assert(text::lines_of(m.file_text()) =~= l.map_values(
        |line: Seq<char>| text::without_carriage_return(line),
    ));
}

proof fn lemma_no_line_feed(key: Seq<char>, value: Seq<char>)
    requires
        !key.contains('\n'),
        !value.contains('\n'),
    ensures
        !(key + seq!['='] + value).contains('\n'),
{
    let s = key + seq!['='] + value;
    assert forall|i: int| 0 <= i < s.len() implies s[i] != '\n' by {
        if i < key.len() {
            assert(key.contains(key[i]));
        } else if i > key.len() {
            assert(s[i] == value[i - key.len() - 1]);
            assert(value.contains(value[i - key.len() - 1]));
        }
    }
}

/// What is written starts with the key of the process id, so it is not the older form.
proof fn lemma_file_text_is_not_a_number(m: LockMetadataView)
    ensures
        decimal::number_i32(text::trimmed(m.file_text())) is Err,
{
    lemma_file_text_lines(m);
    reveal_strlit("pid");
    let s = m.file_text();
    assert(s[0] == 'p');
    text::lemma_trimmed_keeps_first(s);
    let t = text::trimmed(s);
    assert(t.take(1).drop_last() == Seq::<char>::empty());
    assert(decimal::digits_within(
        Seq::<char>::empty(),
        i32::MAX as nat,
        NumberError::PosOverflow,
    ) is Ok);
    decimal::lemma_fault_stays(t, 1, i32::MAX as nat, NumberError::PosOverflow);
}

/// The entries of the four lines.
proof fn lemma_entries(m: LockMetadataView)
    ensures
        ({
            let cr = |line: Seq<char>| text::without_carriage_return(line);
            let rows = file_lines(m).map_values(cr);
            &&& rows.len() == 4
            &&& lock_metadata::entry(rows[0]) == Some(
                ("pid"@, decimal::signed_decimal(m.pid)),
            )
            &&& lock_metadata::entry(rows[1]) == Some(
                (
                    "process"@,
                    text::trimmed(lock_metadata::field_or_unknown(m.process)),
                ),
            )
            &&& lock_metadata::entry(rows[2]) == Some(
                (
                    "operation"@,
                    text::trimmed(lock_metadata::field_or_unknown(m.operation)),
                ),
            )
            &&& lock_metadata::entry(rows[3]) == Some(
                (
                    "created_unix"@,
                    text::trimmed(lock_metadata::number_or_unknown(m.created_unix)),
                ),
            )
        }),
{
    reveal_strlit("pid");
    reveal_strlit("process");
    reveal_strlit("operation");
    reveal_strlit("created_unix");
    lemma_signed_decimal_is_plain(m.pid);
    lemma_entry_of_line("pid"@, decimal::signed_decimal(m.pid));
    lemma_entry_of_line("process"@, lock_metadata::field_or_unknown(m.process));
    lemma_entry_of_line("operation"@, lock_metadata::field_or_unknown(m.operation));
    lemma_entry_of_line("created_unix"@, lock_metadata::number_or_unknown(m.created_unix));
}

/// A lock file that records a creation time reads back: the process id and the time as they
/// were, each text field without the whitespace around it.
pub proof fn written_lock_file_reads_back(m: LockMetadataView)
    requires
        i32::MIN <= m.pid <= i32::MAX,
        m.created_unix matches Some(n) && n <= u64::MAX,
        fields_on_one_line(m),
    ensures
        lock_metadata::metadata_of_text(m.file_text()) == Ok::<
            LockMetadataView,
            LockFileErrorView,
        >(
            LockMetadataView {
                pid: m.pid,
                process: read_back_field(m.process),
                operation: read_back_field(m.operation),
                created_unix: m.created_unix,
            },
        ),
{
    lemma_read_of_file_text(m);
    lemma_decimal_is_plain(m.created_unix->0);
    decimal::lemma_decimal_reads_back(m.created_unix->0 as u64);
    decimal::lemma_signed_decimal_reads_back(m.pid as i32);
}

/// The faults and last values of four rows with four keys.
proof fn lemma_four_rows(rows: Seq<Seq<char>>, keys: Seq<Seq<char>>, values: Seq<Seq<char>>)
    requires
        rows.len() == 4,
        keys.len() == 4,
        values.len() == 4,
        keys.no_duplicates(),
        forall|k: int|
            0 <= k < 4 ==> lock_metadata::entry(#[trigger] rows[k]) == Some(
                (keys[k], values[k]),
            ),
    ensures
        lock_metadata::first_fault(rows) == (match lock_metadata::line_fault(
            rows[0],
        ) {
            Some(e) => Some(e),
            None => match lock_metadata::line_fault(rows[1]) {
                Some(e) => Some(e),
                None => match lock_metadata::line_fault(rows[2]) {
                    Some(e) => Some(e),
                    None => lock_metadata::line_fault(rows[3]),
                },
            },
        }),
        forall|k: int|
            0 <= k < 4 ==> lock_metadata::last_value(rows, #[trigger] keys[k]) == Some(
                values[k],
            ),
{
    let r3 = rows.drop_last();
    let r2 = r3.drop_last();
    let r1 = r2.drop_last();
    let r0 = r1.drop_last();
    assert(r3.last() == rows[2] && r2.last() == rows[1] && r1.last() == rows[0]);
    assert(r0.len() == 0);
    reveal_with_fuel(lock_metadata::first_fault, 5);
    assert forall|k: int| 0 <= k < 4 implies lock_metadata::last_value(
        rows,
        #[trigger] keys[k],
    ) == Some(values[k]) by {
        reveal_with_fuel(lock_metadata::last_value, 5);
        assert(rows.last() == rows[3]);
    }
}

/// The four keys, in the order in which they are written.
spec fn file_keys() -> Seq<Seq<char>> {
    seq!["pid"@, "process"@, "operation"@, "created_unix"@]
}

/// The values that are read of the four lines.
spec fn file_values(m: LockMetadataView) -> Seq<Seq<char>> {
    seq![
        decimal::signed_decimal(m.pid),
        text::trimmed(lock_metadata::field_or_unknown(m.process)),
        text::trimmed(lock_metadata::field_or_unknown(m.operation)),
        text::trimmed(lock_metadata::number_or_unknown(m.created_unix)),
    ]
}

/// What is read of the lines of a written lock file.
proof fn lemma_read_of_file_text(m: LockMetadataView)
    requires
        i32::MIN <= m.pid <= i32::MAX,
        fields_on_one_line(m),
    ensures
        ({
            let rows = text::lines_of(m.file_text());
            let v = file_values(m);
            &&& lock_metadata::metadata_of_text(m.file_text())
                == lock_metadata::metadata_of_lines(rows)
            &&& lock_metadata::first_fault(rows) == decimal::number_u64(v[3]).err()
            &&& lock_metadata::last_value(rows, "pid"@) == Some(v[0])
            &&& lock_metadata::last_value(rows, "process"@) == Some(v[1])
            &&& lock_metadata::last_value(rows, "operation"@) == Some(v[2])
            &&& lock_metadata::last_value(rows, "created_unix"@) == Some(v[3])
        }),
{
    lemma_file_text_is_not_a_number(m);
    lemma_lines_of_file_text(m);
    lemma_entries(m);
    lock_metadata::lemma_keys_differ();
    decimal::lemma_signed_decimal_reads_back(m.pid as i32);
    let rows = text::lines_of(m.file_text());
    let keys = file_keys();
    lemma_four_rows(rows, keys, file_values(m));
    assert(keys[0] == "pid"@ && keys[1] == "process"@ && keys[2] == "operation"@ && keys[3]
        == "created_unix"@);
}

/// A lock file written without a creation time does not read back: the word in place of the
/// time is no number.
pub proof fn lock_file_without_time_is_refused(m: LockMetadataView)
    requires
        i32::MIN <= m.pid <= i32::MAX,
        m.created_unix is None,
        fields_on_one_line(m),
    ensures
        lock_metadata::metadata_of_text(m.file_text()) == Err::<
            LockMetadataView,
            LockFileErrorView,
        >(LockFileErrorView::Number(NumberError::InvalidDigit)),
{
    lemma_read_of_file_text(m);
    reveal_strlit("unknown");
    let word = "unknown"@;
    text::lemma_trimmed_fixed(word);
    assert(word.take(1).drop_last() == Seq::<char>::empty());
    assert(word.take(1).last() == 'u');
    assert(decimal::digits_within(
        Seq::<char>::empty(),
        u64::MAX as nat,
        NumberError::PosOverflow,
    ) is Ok);
    decimal::lemma_fault_stays(word, 1, u64::MAX as nat, NumberError::PosOverflow);
}

/// A file that holds a process id alone, with any whitespace around it, reads as that id and
/// nothing else.
pub proof fn pid_alone_reads(before: Seq<char>, pid: i32, after: Seq<char>)
    requires
        forall|i: int| 0 <= i < before.len() ==> text::whitespace(#[trigger] before[i]),
        forall|i: int| 0 <= i < after.len() ==> text::whitespace(#[trigger] after[i]),
    ensures
        lock_metadata::metadata_of_text(
            before + decimal::signed_decimal(pid as int) + after,
        ) == Ok::<LockMetadataView, LockFileErrorView>(
            LockMetadataView {
                pid: pid as int,
                process: None,
                operation: None,
                created_unix: None,
            },
        ),
{
    let s = decimal::signed_decimal(pid as int);
    text::lemma_trimmed_after(before + s, after);
    text::lemma_trimmed_before(before, s);
    lemma_signed_decimal_is_plain(pid as int);
    decimal::lemma_signed_decimal_reads_back(pid);
}

/// Sanitised text holds no line break, and text without line breaks is left as it is.
pub proof fn sanitized_text_is_one_line(s: Seq<char>)
    ensures
        !lock_metadata::without_line_breaks(s).contains('\n'),
        !lock_metadata::without_line_breaks(s).contains('\r'),
        !s.contains('\n') && !s.contains('\r') ==> lock_metadata::without_line_breaks(s)
            == s,
    decreases s.len(),
{
    reveal(Seq::filter);
    if s.len() > 0 {
        let t = s.drop_last();
        sanitized_text_is_one_line(t);
        let kept = lock_metadata::without_line_breaks(t);
        let c = s.last();
        assert forall|x: char| #[trigger] kept.push(c).contains(x) implies kept.contains(x) || x
            == c by {
            let i = choose|i: int| 0 <= i < kept.push(c).len() && kept.push(c)[i] == x;
            if i < kept.len() {
                assert(kept[i] == x);
            }
        }
        if !s.contains('\n') && !s.contains('\r') {
            assert forall|x: char| #[trigger] t.contains(x) implies s.contains(x) by {
                let i = choose|i: int| 0 <= i < t.len() && t[i] == x;
                assert(s[i] == x);
            }
            assert(s[s.len() - 1] == c);
            assert(s.contains(c));
            assert(t.push(c) == s);
        }
    }
}

/// What the running process writes of itself keeps each field on its line.
proof fn lemma_own_fields_on_one_line(operation: Seq<char>, identity: ProcessIdentity)
    ensures
        fields_on_one_line(lock_metadata::own_metadata(operation, identity)),
{
    sanitized_text_is_one_line(operation);
    match text::optional_view(identity.comm) {
        Some(comm) => {
            sanitized_text_is_one_line(text::trimmed(comm));
        },
        None => {},
    }
    match text::optional_view(identity.first_argument) {
        Some(argument) => {
            sanitized_text_is_one_line(argument);
        },
        None => {},
    }
}

/// The lock file of the running process reads back whatever its operation and names are, as
/// long as the clock could be read.
pub proof fn own_lock_file_reads_back(operation: Seq<char>, identity: ProcessIdentity)
    requires
        identity.unix_seconds is Some,
    ensures
        ({
            let m = lock_metadata::own_metadata(operation, identity);
            lock_metadata::metadata_of_text(m.file_text()) == Ok::<
                LockMetadataView,
                LockFileErrorView,
            >(
                LockMetadataView {
                    pid: identity.pid as int,
                    process: read_back_field(m.process),
                    operation: Some(text::trimmed(lock_metadata::without_line_breaks(operation))),
                    created_unix: Some(identity.unix_seconds->0 as nat),
                },
            )
        }),
{
    lemma_own_fields_on_one_line(operation, identity);
    written_lock_file_reads_back(lock_metadata::own_metadata(operation, identity));
}

/// The lock file of the running process, whatever it holds, never reads as the lock of another
/// process: it names this one, or, if the clock could not be read, no one.
pub proof fn own_lock_file_names_no_one_else(operation: Seq<char>, identity: ProcessIdentity)
    ensures
        ({
            let m = lock_metadata::own_metadata(operation, identity);
            match lock_metadata::metadata_of_text(m.file_text()) {
                Ok(read) => read.pid == identity.pid,
                Err(e) => identity.unix_seconds is None && e == LockFileErrorView::Number(
                    NumberError::InvalidDigit,
                ),
            }
        }),
{
    lemma_own_fields_on_one_line(operation, identity);
    let m = lock_metadata::own_metadata(operation, identity);
    if identity.unix_seconds is Some {
        written_lock_file_reads_back(m);
    } else {
        lock_file_without_time_is_refused(m);
    }
}

} // verus!
