//! What the watchdog reads from `/proc` and from its settings, and what it logs.

use crate::{byte_size, decimal, memory_watchdog, text, text_laws};
use crate::memory_watchdog::{
    diagnostics_report, env_flag_enabled, env_mib, env_mib_fits, parse_proc_key_values, pressure_warning,
    read_optional_kb, read_optional_raw, read_required_kb, restart_report, MemorySnapshot,
    MemoryWatchdog, MemoryWatchdogConfig, MissingValue, WatchdogAction,
};
use vstd::hash_map::StringHashMap;
use vstd::prelude::*;

verus! {

/// Whether a line gives `key` this number: the key stands before the first colon, and the first
/// word after it is the number.
pub open spec fn gives(line: Seq<char>, key: Seq<char>, value: u64) -> bool {
    exists|rest: Seq<char>, word: Seq<char>|
        {
            &&& line == key + seq![':'] + rest
            &&& !key.contains(':')
            &&& #[trigger] text_laws::is_first_word(rest, word)
            &&& decimal::number_u64(word) == Ok::<nat, decimal::NumberError>(value as nat)
        }
}

/// What is a first word is the first word.
proof fn lemma_is_first_word(s: Seq<char>, word: Seq<char>)
    requires
        text_laws::is_first_word(s, word),
    ensures
        text::first_word_of(s) == Some(word),
{
    let (before, after) = choose|before: Seq<char>, after: Seq<char>|
        #![trigger before + word + after]
        {
            &&& s == before + word + after
            &&& text_laws::blank(before)
            &&& word.len() > 0
            &&& text_laws::without_blanks(word)
            &&& after.len() > 0 ==> text::whitespace(after.first())
        };
    assert(s == before + (word + after));
    text::lemma_trim_start_before(before, word + after);
    assert((word + after).first() == word[0]);
    text::lemma_word_len(word, after);
    assert((word + after).take(word.len() as int) == word);
}

/// A line gives one key a number at most, namely its entry.
proof fn lemma_gives(line: Seq<char>, key: Seq<char>, value: u64)
    ensures
        gives(line, key, value) <==> memory_watchdog::proc_entry(line) == Some((key, value)),
{
    text_laws::lemma_split(line, ':');
    if gives(line, key, value) {
        let (rest, word) = choose|rest: Seq<char>, word: Seq<char>|
            {
                &&& line == key + seq![':'] + rest
                &&& !key.contains(':')
                &&& #[trigger] text_laws::is_first_word(rest, word)
                &&& decimal::number_u64(word) == Ok::<nat, decimal::NumberError>(value as nat)
            };
        text::lemma_split_step(key, ':', rest);
        lemma_is_first_word(rest, word);
    }
    if memory_watchdog::proc_entry(line) == Some((key, value)) {
        let (k, rest) = text::split_at_first(line, ':')->0;
        let word = text::first_word_of(rest)->0;
        text_laws::lemma_first_word(rest);
        text_laws::lemma_number_u64(word);
        assert(text_laws::is_first_word(rest, word));
    }
}

/// Whether the last of the lines that give `key` a number gives it this one.
pub open spec fn last_gives(lines: Seq<Seq<char>>, key: Seq<char>, value: u64) -> bool {
    exists|i: int|
        {
            &&& 0 <= i < lines.len()
            &&& gives(#[trigger] lines[i], key, value)
            &&& forall|j: int, other: u64|
                i < j < lines.len() ==> !#[trigger] gives(lines[j], key, other)
        }
}

/// Whether no line gives `key` a number.
pub open spec fn none_gives(lines: Seq<Seq<char>>, key: Seq<char>) -> bool {
    forall|j: int, other: u64| 0 <= j < lines.len() ==> !#[trigger] gives(lines[j], key, other)
}

proof fn lemma_proc_values(lines: Seq<Seq<char>>, key: Seq<char>)
    ensures
        ({
            let values = memory_watchdog::proc_values(lines);
            if values.contains_key(key) {
                last_gives(lines, key, values[key])
            } else {
                none_gives(lines, key)
            }
        }),
    decreases lines.len(),
{
    if lines.len() > 0 {
        let before = lines.drop_last();
        let n = before.len() as int;
        lemma_proc_values(before, key);
        assert forall|value: u64| #[trigger] gives(lines[n], key, value)
            <==> memory_watchdog::proc_entry(lines.last()) == Some((key, value)) by {
            lemma_gives(lines[n], key, value);
        }
        assert forall|j: int| 0 <= j < n implies #[trigger] lines[j] == before[j] by {}
        let values = memory_watchdog::proc_values(before);
        match memory_watchdog::proc_entry(lines.last()) {
            Some((k, value)) if k == key => {
                assert(gives(lines[n], key, value));
                assert(last_gives(lines, key, value));
            },
            _ => {
                if values.contains_key(key) {
                    let i = choose|i: int|
                        {
                            &&& 0 <= i < before.len()
                            &&& gives(#[trigger] before[i], key, values[key])
                            &&& forall|j: int, other: u64|
                                i < j < before.len() ==> !#[trigger] gives(before[j], key, other)
                        };
                    assert(gives(lines[i], key, values[key]));
                    assert forall|j: int, other: u64| i < j < lines.len() implies !#[trigger] gives(
                        lines[j],
                        key,
                        other,
                    ) by {
                        if j < n {
                            assert(!gives(before[j], key, other));
                        }
                    }
                } else {
                    assert forall|j: int, other: u64| 0 <= j < lines.len() implies !#[trigger] gives(
                        lines[j],
                        key,
                        other,
                    ) by {
                        if j < n {
                            assert(!gives(before[j], key, other));
                        }
                    }
                }
            },
        }
    }
}

/// A file of `/proc` gives each key the number in the last line that gives it one, and no key
/// that no line gives a number.
pub proof fn proc_file_gives_what_its_lines_give(
    input: &str,
    r: StringHashMap<u64>,
    key: Seq<char>,
)
    requires
        call_ensures(parse_proc_key_values, (input,), r),
    ensures
        r@.contains_key(key) ==> last_gives(text::lines_of(input@), key, r@[key]),
        !r@.contains_key(key) ==> none_gives(text::lines_of(input@), key),
{
    lemma_proc_values(text::lines_of(input@), key);
}

/// Sizes are read in KiB and counted in bytes, and other numbers are read as they are. A value
/// that is not there is an error that names it, or nothing, as the reader asks for.
pub proof fn values_are_read_by_key(
    values: StringHashMap<u64>,
    key: &str,
    required: Result<u64, MissingValue>,
    optional: u64,
    raw: u64,
)
    requires
        call_ensures(read_required_kb, (&values, key), required),
        call_ensures(read_optional_kb, (&values, key), optional),
        call_ensures(read_optional_raw, (&values, key), raw),
    ensures
        values@.contains_key(key@) ==> required == Ok::<u64, MissingValue>(optional) && optional
            == 1024 * values@[key@] && raw == values@[key@],
        !values@.contains_key(key@) ==> (required matches Err(missing) && missing.key@ == key@)
            && optional == 0 && raw == 0,
{
}

/// A snapshot is made of the total and the available memory of the machine, and the resident
/// and the swapped memory and the threads of the process. All but the swap and the threads must
/// be there, and the first that is not is named.
pub proof fn snapshot_is_what_proc_says(
    meminfo: &str,
    status: &str,
    machine: StringHashMap<u64>,
    process: StringHashMap<u64>,
    r: Result<MemorySnapshot, MissingValue>,
)
    requires
        call_ensures(parse_proc_key_values, (meminfo,), machine),
        call_ensures(parse_proc_key_values, (status,), process),
        call_ensures(MemorySnapshot::read, (meminfo, status), r),
    ensures
        r is Ok <==> machine@.contains_key("MemTotal"@) && machine@.contains_key("MemAvailable"@)
            && process@.contains_key("VmRSS"@),
        match r {
            Ok(s) => {
                &&& s.mem_total_bytes == 1024 * machine@["MemTotal"@]
                &&& s.mem_available_bytes == 1024 * machine@["MemAvailable"@]
                &&& s.process_rss_bytes == 1024 * process@["VmRSS"@]
                &&& process@.contains_key("VmSwap"@) ==> s.process_swap_bytes == 1024
                    * process@["VmSwap"@]
                &&& !process@.contains_key("VmSwap"@) ==> s.process_swap_bytes == 0
                &&& process@.contains_key("Threads"@) ==> s.thread_count == process@["Threads"@]
                &&& !process@.contains_key("Threads"@) ==> s.thread_count == 0
            },
            Err(missing) => {
                ||| missing.key@ == "MemTotal"@ && !machine@.contains_key("MemTotal"@)
                ||| missing.key@ == "MemAvailable"@ && !machine@.contains_key("MemAvailable"@)
                    && machine@.contains_key("MemTotal"@)
                ||| missing.key@ == "VmRSS"@ && !process@.contains_key("VmRSS"@)
                    && machine@.contains_key("MemTotal"@) && machine@.contains_key(
                    "MemAvailable"@,
                )
            },
        },
{
}

/// A snapshot can be read exactly if each size, in bytes, fits. A size does not matter if it is
/// not there, nor if one that is needed before it is not.
pub proof fn snapshot_can_be_read_if_sizes_fit(
    meminfo: &str,
    status: &str,
    machine: StringHashMap<u64>,
    process: StringHashMap<u64>,
    r: bool,
)
    requires
        call_ensures(parse_proc_key_values, (meminfo,), machine),
        call_ensures(parse_proc_key_values, (status,), process),
        call_ensures(MemorySnapshot::can_read, (meminfo, status), r),
    ensures
        !machine@.contains_key("MemTotal"@) ==> r,
        machine@.contains_key("MemTotal"@) && !machine@.contains_key("MemAvailable"@) ==> (r
            <==> 1024 * machine@["MemTotal"@] <= u64::MAX),
        machine@.contains_key("MemTotal"@) && machine@.contains_key("MemAvailable"@)
            && !process@.contains_key("VmRSS"@) ==> (r <==> 1024 * machine@["MemTotal"@]
            <= u64::MAX && 1024 * machine@["MemAvailable"@] <= u64::MAX),
        machine@.contains_key("MemTotal"@) && machine@.contains_key("MemAvailable"@)
            && process@.contains_key("VmRSS"@) ==> (r <==> 1024 * machine@["MemTotal"@] <= u64::MAX
            && 1024 * machine@["MemAvailable"@] <= u64::MAX && 1024 * process@["VmRSS"@]
            <= u64::MAX && (process@.contains_key("VmSwap"@) ==> 1024 * process@["VmSwap"@]
            <= u64::MAX)),
{
}

/// A setting in MiB counts if it is a number, and the default does otherwise.
pub proof fn setting_counts_if_it_is_a_number(value: Option<&str>, default_bytes: u64, r: u64)
    requires
        memory_watchdog::mib_setting_fits(memory_watchdog::text_view(value)),
        call_ensures(env_mib, (value, default_bytes), r),
    ensures
        value is None ==> r == default_bytes,
        value matches Some(text) ==> match decimal::number_u64(text@) {
            Ok(n) => r == n * 1024 * 1024,
            Err(_) => r == default_bytes,
        },
{
    if let Some(text) = value {
        text_laws::lemma_number_u64(text@);
    }
}

/// A setting can be counted in bytes exactly if it is no number or that many MiB fit.
pub proof fn setting_fits_if_its_bytes_do(value: Option<&str>, r: bool)
    requires
        call_ensures(env_mib_fits, (value,), r),
    ensures
        r <==> (value is Some && decimal::number_u64(value->0@) is Ok ==> decimal::number_u64(
            value->0@,
        )->Ok_0 * 1024 * 1024 <= u64::MAX),
{
}

/// A value that is missing is named.
pub proof fn missing_value_is_named(missing: MissingValue, r: String)
    requires
        call_ensures(MissingValue::message, (&missing,), r),
    ensures
        r@ == missing.key@ + " missing from /proc memory data"@,
{
}

/// Each limit comes from its own setting, with a default of its own: 2304 MiB of available
/// memory, a process of 1024 MiB, at most 4096 MiB, and 1024 MiB of it swapped.
pub proof fn limits_come_from_their_settings(
    min_available: Option<&str>,
    min_process: Option<&str>,
    max_process: Option<&str>,
    max_swap: Option<&str>,
    available_bytes: u64,
    process_bytes: u64,
    largest_bytes: u64,
    swap_bytes: u64,
    r: MemoryWatchdogConfig,
)
    requires
        call_ensures(
            MemoryWatchdogConfig::from_env,
            (min_available, min_process, max_process, max_swap),
            r,
        ),
        call_ensures(env_mib, (min_available, 2_415_919_104u64), available_bytes),
        call_ensures(env_mib, (min_process, 1_073_741_824u64), process_bytes),
        call_ensures(env_mib, (max_process, 4_294_967_296u64), largest_bytes),
        call_ensures(env_mib, (max_swap, 1_073_741_824u64), swap_bytes),
    ensures
        r.min_available_bytes == available_bytes,
        r.min_process_bytes == process_bytes,
        r.max_process_bytes == largest_bytes,
        r.max_swap_bytes == swap_bytes,
{
}

/// Five words switch a flag on, and nothing else does.
pub proof fn five_words_switch_a_flag_on(value: Option<&str>, r: bool)
    requires
        call_ensures(env_flag_enabled, (value,), r),
    ensures
        r <==> (value matches Some(text) && (text@ == "1"@ || text@ == "true"@ || text@ == "TRUE"@
            || text@ == "yes"@ || text@ == "YES"@)),
{
}

/// Resident and swapped memory together, as far as they can be counted.
pub open spec fn used(s: MemorySnapshot) -> nat {
    if s.process_rss_bytes + s.process_swap_bytes <= u64::MAX {
        (s.process_rss_bytes + s.process_swap_bytes) as nat
    } else {
        u64::MAX as nat
    }
}

/// The process in a log message.
pub open spec fn process_part(s: MemorySnapshot) -> Seq<char> {
    " process_rss="@ + byte_size::mib_text(s.process_rss_bytes as nat) + (" process_swap="@
        + byte_size::mib_text(s.process_swap_bytes as nat)) + (" process_total="@
        + byte_size::mib_text(used(s))) + (" threads="@ + decimal::decimal(s.thread_count as nat))
}

proof fn lemma_process_part(s: MemorySnapshot)
    ensures
        memory_watchdog::process_text(s) == process_part(s),
{
    assert(memory_watchdog::process_text(s) =~= process_part(s));
}

/// A warning gives the available memory and the process.
pub proof fn warning_gives_the_memory(s: MemorySnapshot, r: String)
    requires
        call_ensures(pressure_warning, (&s,), r),
    ensures
        r@ == "lqosd memory pressure warning: mem_available="@ + byte_size::mib_text(
            s.mem_available_bytes as nat,
        ) + process_part(s),
{
    lemma_process_part(s);
}

/// A warning that the watchdog gives is about the sample that it took.
pub proof fn watchdog_warns_about_its_sample(
    before: MemoryWatchdog,
    config: MemoryWatchdogConfig,
    sample: Option<MemorySnapshot>,
    action: WatchdogAction,
)
    requires
        exists|w: &mut MemoryWatchdog|
            *w == before && #[trigger] call_ensures(
                MemoryWatchdog::observe,
                (w, &config, sample),
                action,
            ),
    ensures
        action matches WatchdogAction::Warn(message) ==> sample is Some && message@
            == "lqosd memory pressure warning: mem_available="@ + byte_size::mib_text(
            sample->0.mem_available_bytes as nat,
        ) + process_part(sample->0),
{
    if let Some(s) = sample {
        lemma_process_part(s);
    }
}

/// The message about a restart gives the reason, the memory of the machine, the process, and
/// each limit.
pub proof fn restart_message_gives_everything(
    s: MemorySnapshot,
    config: MemoryWatchdogConfig,
    reason: &str,
    r: String,
)
    requires
        call_ensures(restart_report, (&s, &config, reason), r),
    ensures
        r@ == "lqosd memory watchdog restarting daemon: reason="@ + reason@ + (" mem_available="@
            + byte_size::mib_text(s.mem_available_bytes as nat)) + (" mem_total="@
            + byte_size::mib_text(s.mem_total_bytes as nat)) + process_part(s) + (
        " thresholds=min_available:"@ + byte_size::mib_text(config.min_available_bytes as nat)) + (
        " min_process:"@ + byte_size::mib_text(config.min_process_bytes as nat)) + (
        " max_process:"@ + byte_size::mib_text(config.max_process_bytes as nat)) + (" max_swap:"@
            + byte_size::mib_text(config.max_swap_bytes as nat)),
{
    lemma_process_part(s);
    assert(r@ =~= "lqosd memory watchdog restarting daemon: reason="@ + reason@ + (
    " mem_available="@ + byte_size::mib_text(s.mem_available_bytes as nat)) + (" mem_total="@
        + byte_size::mib_text(s.mem_total_bytes as nat)) + process_part(s) + (
    " thresholds=min_available:"@ + byte_size::mib_text(config.min_available_bytes as nat)) + (
    " min_process:"@ + byte_size::mib_text(config.min_process_bytes as nat)) + (" max_process:"@
        + byte_size::mib_text(config.max_process_bytes as nat)) + (" max_swap:"@
        + byte_size::mib_text(config.max_swap_bytes as nat)));
}

/// The message with the counters gives each of them under its name.
pub proof fn diagnostics_give_every_counter(
    flows: u64,
    requests: u64,
    poll_time: u64,
    down: u64,
    up: u64,
    r: String,
)
    requires
        call_ensures(diagnostics_report, (flows, requests, poll_time, down, up), r),
    ensures
        r@ == "lqosd memory watchdog diagnostics: flows_tracked="@ + decimal::decimal(
            flows as nat,
        ) + (" bus_requests="@ + decimal::decimal(requests as nat)) + (" time_to_poll_hosts_us="@
            + decimal::decimal(poll_time as nat)) + (" high_watermark_down="@ + decimal::decimal(
            down as nat,
        )) + (" high_watermark_up="@ + decimal::decimal(up as nat)),
{
    assert(r@ =~= "lqosd memory watchdog diagnostics: flows_tracked="@ + decimal::decimal(
        flows as nat,
    ) + (" bus_requests="@ + decimal::decimal(requests as nat)) + (" time_to_poll_hosts_us="@
        + decimal::decimal(poll_time as nat)) + (" high_watermark_down="@ + decimal::decimal(
        down as nat,
    )) + (" high_watermark_up="@ + decimal::decimal(up as nat)));
}

} // verus!
