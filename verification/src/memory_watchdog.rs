//! Memory pressure watchdog for controlled restarts of the daemon.
//!
//! The watchdog samples `/proc` and ends the daemon before the kernel has to choose a process
//! to kill. Reading the files, sleeping, logging and exiting belong to whoever runs the
//! watchdog; what a sample says and what follows from it is decided here.

use crate::{byte_size, decimal, text};
use crate::byte_size::{format_bytes, kib, mib};
use crate::decimal::{format_unsigned, parse_u64};
use crate::text::{chars_of, first_word, lines, same_text, split_once, string_of};
use vstd::hash_map::StringHashMap;
use vstd::prelude::*;

verus! {

/// The seconds between two samples.
pub const CHECK_INTERVAL_SECONDS: u64 = 15;

/// Less available memory than this is worth a warning.
pub const PRESSURE_WARNING_AVAILABLE_BYTES: u64 = 3_221_225_472;

/// Default of the least available memory.
pub const DEFAULT_MIN_AVAILABLE_BYTES: u64 = 2_415_919_104;

/// Default of the least process size at which little available memory is critical.
pub const DEFAULT_MIN_PROCESS_BYTES: u64 = 1_073_741_824;

/// Default of the largest process size.
pub const DEFAULT_MAX_PROCESS_BYTES: u64 = 4_294_967_296;

/// Default of the largest process swap.
pub const DEFAULT_MAX_SWAP_BYTES: u64 = 1_073_741_824;

/// The exit code of a restart that the watchdog asks for.
pub const WATCHDOG_EXIT_CODE: i32 = 75;

/// The milliseconds between the last log message and the exit.
pub const EXIT_DELAY_MILLISECONDS: u64 = 250;

/// A value that `/proc` did not give.
#[derive(Clone, Debug, PartialEq, Eq)]
pub struct MissingValue {
    pub key: String,
}

/// The limits of the watchdog.
#[derive(Clone, Copy, Debug, PartialEq, Eq, Structural)]
pub struct MemoryWatchdogConfig {
    pub min_available_bytes: u64,
    pub min_process_bytes: u64,
    pub max_process_bytes: u64,
    pub max_swap_bytes: u64,
}

/// The memory of the machine and of the process at one moment.
#[derive(Clone, Copy, Debug, PartialEq, Eq, Structural)]
pub struct MemorySnapshot {
    pub mem_total_bytes: u64,
    pub mem_available_bytes: u64,
    pub process_rss_bytes: u64,
    pub process_swap_bytes: u64,
    pub thread_count: u64,
}

/// What to do after a sample.
#[derive(Debug)]
pub enum WatchdogAction {
    /// Log that the memory state could not be sampled.
    ReportUnreadable,
    /// Log the reason, and exit.
    Restart(String),
    /// Log this warning.
    Warn(String),
    /// Nothing.
    Wait,
}

/// The watchdog between samples: whether it has warned since memory was last plentiful.
#[derive(Clone, Copy, Debug, PartialEq, Eq, Structural)]
pub struct MemoryWatchdog {
    pub warned_about_pressure: bool,
}

/// What a line of a `/proc` file says: the key before the colon, and the number that is the
/// first word after it.
pub open spec fn proc_entry(line: Seq<char>) -> Option<(Seq<char>, u64)> {
    match text::split_at_first(line, ':') {
        None => None,
        Some((key, rest)) => match text::first_word_of(rest) {
            None => None,
            Some(word) => match decimal::number_u64(word) {
                Ok(n) => Some((key, n as u64)),
                Err(_) => None,
            },
        },
    }
}

/// What the lines of a `/proc` file say. Of a key that occurs twice, the later value counts.
pub open spec fn proc_values(lines: Seq<Seq<char>>) -> Map<Seq<char>, u64>
    decreases lines.len(),
{
    if lines.len() == 0 {
        Map::empty()
    } else {
        let before = proc_values(lines.drop_last());
        match proc_entry(lines.last()) {
            Some((key, value)) => before.insert(key, value),
            None => before,
        }
    }
}

/// What the text of a `/proc` file says.
pub open spec fn proc_text_values(text: Seq<char>) -> Map<Seq<char>, u64> {
    proc_values(text::lines_of(text))
}

/// Whether the value of `key`, counted in KiB, can be counted in bytes; so it is if there is
/// none.
pub open spec fn kb_fits(values: Map<Seq<char>, u64>, key: Seq<char>) -> bool {
    values.contains_key(key) ==> byte_size::kib_fits(values[key] as int)
}

/// The value of `key`, or 0 if there is none.
pub open spec fn value_or_zero(values: Map<Seq<char>, u64>, key: Seq<char>) -> u64 {
    if values.contains_key(key) {
        values[key]
    } else {
        0
    }
}

/// Whether each size that a snapshot is made of can be counted in bytes. A size does not
/// matter if one that is needed before it is missing.
pub open spec fn sizes_fit(meminfo: Map<Seq<char>, u64>, status: Map<Seq<char>, u64>) -> bool {
    &&& kb_fits(meminfo, "MemTotal"@)
    &&& meminfo.contains_key("MemTotal"@) ==> {
        &&& kb_fits(meminfo, "MemAvailable"@)
        &&& meminfo.contains_key("MemAvailable"@) ==> {
            &&& kb_fits(status, "VmRSS"@)
            &&& status.contains_key("VmRSS"@) ==> kb_fits(status, "VmSwap"@)
        }
    }
}

/// The first value that a snapshot needs and does not find.
pub open spec fn first_missing(
    meminfo: Map<Seq<char>, u64>,
    status: Map<Seq<char>, u64>,
) -> Option<Seq<char>> {
    if !meminfo.contains_key("MemTotal"@) {
        Some("MemTotal"@)
    } else if !meminfo.contains_key("MemAvailable"@) {
        Some("MemAvailable"@)
    } else if !status.contains_key("VmRSS"@) {
        Some("VmRSS"@)
    } else {
        None
    }
}

/// Whether a setting switches something on.
pub open spec fn switched_on(value: Option<Seq<char>>) -> bool {
    value matches Some(text) && (text == "1"@ || text == "true"@ || text == "TRUE"@ || text
        == "yes"@ || text == "YES"@)
}

/// The number of MiB that a setting gives, if it gives one.
pub open spec fn mib_setting(value: Option<Seq<char>>) -> Option<nat> {
    match value {
        Some(text) => decimal::number_u64(text).ok(),
        None => None,
    }
}

/// Whether the number of MiB that a setting gives can be counted in bytes.
pub open spec fn mib_setting_fits(value: Option<Seq<char>>) -> bool {
    mib_setting(value) matches Some(n) ==> byte_size::mib_fits(n as int)
}

/// A setting in MiB as bytes, or the default if it gives no number.
pub open spec fn mib_setting_bytes(value: Option<Seq<char>>, default_bytes: u64) -> u64 {
    match mib_setting(value) {
        Some(n) => (n * 1_048_576) as u64,
        None => default_bytes,
    }
}

/// The view of an optional text.
pub open spec fn text_view(value: Option<&str>) -> Option<Seq<char>> {
    match value {
        Some(text) => Some(text@),
        None => None,
    }
}

impl MemorySnapshot {
    /// Resident and swapped memory of the process, at most the largest `u64`.
    pub open spec fn total_spec(self) -> u64 {
        if self.process_rss_bytes + self.process_swap_bytes > u64::MAX {
            u64::MAX
        } else {
            (self.process_rss_bytes + self.process_swap_bytes) as u64
        }
    }
}

impl MemoryWatchdogConfig {
    /// Whether the swap of the process is at its limit.
    pub open spec fn swap_is_critical(self, s: MemorySnapshot) -> bool {
        s.process_swap_bytes >= self.max_swap_bytes
    }

    /// Whether the process is at its limit.
    pub open spec fn size_is_critical(self, s: MemorySnapshot) -> bool {
        s.total_spec() >= self.max_process_bytes
    }

    /// Whether little memory is available and the process is large enough to matter.
    pub open spec fn pressure_is_critical(self, s: MemorySnapshot) -> bool {
        s.mem_available_bytes < self.min_available_bytes && s.total_spec()
            >= self.min_process_bytes
    }

    /// Whether the daemon must restart.
    pub open spec fn is_critical(self, s: MemorySnapshot) -> bool {
        self.swap_is_critical(s) || self.size_is_critical(s) || self.pressure_is_critical(s)
    }

    /// Why the daemon must restart: the swap is named before the size, and the size before
    /// the pressure.
    pub open spec fn reason_text(self, s: MemorySnapshot) -> Seq<char> {
        if self.swap_is_critical(s) {
            "process swap "@ + byte_size::mib_text(s.process_swap_bytes as nat)
                + " reached limit "@ + byte_size::mib_text(self.max_swap_bytes as nat)
        } else if self.size_is_critical(s) {
            "process rss+swap "@ + byte_size::mib_text(s.total_spec() as nat)
                + " reached limit "@ + byte_size::mib_text(self.max_process_bytes as nat)
        } else {
            "available memory "@ + byte_size::mib_text(s.mem_available_bytes as nat)
                + " below limit "@ + byte_size::mib_text(self.min_available_bytes as nat)
                + " while lqosd uses "@ + byte_size::mib_text(s.total_spec() as nat)
        }
    }
}

/// Whether so little memory is available that it is worth a warning.
pub open spec fn under_pressure(s: MemorySnapshot) -> bool {
    s.mem_available_bytes < PRESSURE_WARNING_AVAILABLE_BYTES
}

/// The part of the log messages that describes the process.
pub open spec fn process_text(s: MemorySnapshot) -> Seq<char> {
    " process_rss="@ + byte_size::mib_text(s.process_rss_bytes as nat) + " process_swap="@
        + byte_size::mib_text(s.process_swap_bytes as nat) + " process_total="@
        + byte_size::mib_text(s.total_spec() as nat) + " threads="@
        + decimal::decimal(s.thread_count as nat)
}

/// The warning about memory pressure.
pub open spec fn pressure_text(s: MemorySnapshot) -> Seq<char> {
    "lqosd memory pressure warning: mem_available="@ + byte_size::mib_text(
        s.mem_available_bytes as nat,
    ) + process_text(s)
}

/// The message about a restart.
pub open spec fn restart_text(
    s: MemorySnapshot,
    config: MemoryWatchdogConfig,
    reason: Seq<char>,
) -> Seq<char> {
    "lqosd memory watchdog restarting daemon: reason="@ + reason + " mem_available="@
        + byte_size::mib_text(s.mem_available_bytes as nat) + " mem_total="@
        + byte_size::mib_text(s.mem_total_bytes as nat) + process_text(s)
        + " thresholds=min_available:"@ + byte_size::mib_text(
        config.min_available_bytes as nat,
    ) + " min_process:"@ + byte_size::mib_text(config.min_process_bytes as nat)
        + " max_process:"@ + byte_size::mib_text(config.max_process_bytes as nat)
        + " max_swap:"@ + byte_size::mib_text(config.max_swap_bytes as nat)
}

/// The message with the counters of the daemon.
pub open spec fn diagnostics_text(
    flows_tracked: u64,
    bus_requests: u64,
    time_to_poll_hosts_us: u64,
    high_watermark_down: u64,
    high_watermark_up: u64,
) -> Seq<char> {
    "lqosd memory watchdog diagnostics: flows_tracked="@ + decimal::decimal(
        flows_tracked as nat,
    ) + " bus_requests="@ + decimal::decimal(bus_requests as nat)
        + " time_to_poll_hosts_us="@ + decimal::decimal(time_to_poll_hosts_us as nat)
        + " high_watermark_down="@ + decimal::decimal(high_watermark_down as nat)
        + " high_watermark_up="@ + decimal::decimal(high_watermark_up as nat)
}

/// The mathematical content of a `WatchdogAction`.
#[verifier::ext_equal]
pub enum WatchdogActionView {
    ReportUnreadable,
    Restart(Seq<char>),
    Warn(Seq<char>),
    Wait,
}

impl View for WatchdogAction {
    type V = WatchdogActionView;

    open spec fn view(&self) -> WatchdogActionView {
        match self {
            WatchdogAction::ReportUnreadable => WatchdogActionView::ReportUnreadable,
            WatchdogAction::Restart(reason) => WatchdogActionView::Restart(reason@),
            WatchdogAction::Warn(message) => WatchdogActionView::Warn(message@),
            WatchdogAction::Wait => WatchdogActionView::Wait,
        }
    }
}

impl MemoryWatchdog {
    /// What to do after a sample. `None` is a sample that could not be taken.
    pub open spec fn action(
        self,
        config: MemoryWatchdogConfig,
        sample: Option<MemorySnapshot>,
    ) -> WatchdogActionView {
        match sample {
            None => WatchdogActionView::ReportUnreadable,
            Some(s) => if config.is_critical(s) {
                WatchdogActionView::Restart(config.reason_text(s))
            } else if under_pressure(s) && !self.warned_about_pressure {
                WatchdogActionView::Warn(pressure_text(s))
            } else {
                WatchdogActionView::Wait
            },
        }
    }

    /// The watchdog after a sample: a sample that is not critical decides whether a warning
    /// is still owed.
    pub open spec fn next(
        self,
        config: MemoryWatchdogConfig,
        sample: Option<MemorySnapshot>,
    ) -> MemoryWatchdog {
        match sample {
            Some(s) => if config.is_critical(s) {
                self
            } else {
                MemoryWatchdog { warned_about_pressure: under_pressure(s) }
            },
            None => self,
        }
    }
}

/// Reads the text of a `/proc` file.
pub fn parse_proc_key_values(input: &str) -> (r: StringHashMap<u64>)
    ensures
        r@ == proc_text_values(input@),
{
    let chars = chars_of(input);
    let rows = lines(chars.as_slice());
    let ghost all = text::views(rows@);
    let mut values = StringHashMap::new();
    assert(values@ == proc_values(all.take(0)));
    for i in 0..rows.len()
        invariant
            all == text::views(rows@),
            values@ == proc_values(all.take(i as int)),
    {
        let ghost row = rows@[i as int]@;
        assert(all.take(i + 1).drop_last() == all.take(i as int));
        assert(all.take(i + 1).last() == row);
        if let Some((key, rest)) = split_once(rows[i].as_slice(), ':') {
            if let Some(word) = first_word(rest.as_slice()) {
                if let Ok(value) = parse_u64(word.as_slice()) {
                    values.insert(string_of(key.as_slice()), value);
                }
            }
        }
    }
    assert(all.take(rows@.len() as int) == all);
    values
}

impl MissingValue {
    /// Says in words what is missing.
    pub fn message(&self) -> (r: String)
        ensures
            r@ == self.key@ + " missing from /proc memory data"@,
    {
        let mut r = self.key.as_str().to_owned();
        r.append(" missing from /proc memory data");
        r
    }
}

/// The value of a key that must be there, from KiB to bytes.
pub fn read_required_kb(values: &StringHashMap<u64>, key: &str) -> (r: Result<u64, MissingValue>)
    requires
        kb_fits(values@, key@),
    ensures
        match r {
            Ok(bytes) => values@.contains_key(key@) && bytes == values@[key@] * 1024,
            Err(missing) => !values@.contains_key(key@) && missing.key@ == key@,
        },
{
    match values.get(key) {
        Some(value) => Ok(kib(*value)),
        None => Err(MissingValue { key: key.to_owned() }),
    }
}

/// The value of a key that may be there, from KiB to bytes.
pub fn read_optional_kb(values: &StringHashMap<u64>, key: &str) -> (r: u64)
    requires
        kb_fits(values@, key@),
    ensures
        r == value_or_zero(values@, key@) * 1024,
{
    match values.get(key) {
        Some(value) => kib(*value),
        None => 0,
    }
}

/// The value of a key that may be there, as it is.
pub fn read_optional_raw(values: &StringHashMap<u64>, key: &str) -> (r: u64)
    ensures
        r == value_or_zero(values@, key@),
{
    match values.get(key) {
        Some(value) => *value,
        None => 0,
    }
}

/// Whether the value of `key`, counted in KiB, can be counted in bytes.
fn kb_value_fits(values: &StringHashMap<u64>, key: &str) -> (r: bool)
    ensures
        r == kb_fits(values@, key@),
{
    match values.get(key) {
        Some(value) => *value <= u64::MAX / 1024,
        None => true,
    }
}

impl MemorySnapshot {
    /// Whether each size in the texts of `/proc/meminfo` and `/proc/self/status` that a
    /// snapshot is made of can be counted in bytes.
    pub fn can_read(meminfo: &str, status: &str) -> (r: bool)
        ensures
            r == sizes_fit(proc_text_values(meminfo@), proc_text_values(status@)),
    {
        let meminfo = parse_proc_key_values(meminfo);
        let status = parse_proc_key_values(status);
        if !kb_value_fits(&meminfo, "MemTotal") {
            return false;
        }
        if !meminfo.contains_key("MemTotal") {
            return true;
        }
        if !kb_value_fits(&meminfo, "MemAvailable") {
            return false;
        }
        if !meminfo.contains_key("MemAvailable") {
            return true;
        }
        if !kb_value_fits(&status, "VmRSS") {
            return false;
        }
        if !status.contains_key("VmRSS") {
            return true;
        }
        kb_value_fits(&status, "VmSwap")
    }

    /// Takes a snapshot from the texts of `/proc/meminfo` and `/proc/self/status`.
    pub fn read(meminfo: &str, status: &str) -> (r: Result<Self, MissingValue>)
        requires
            sizes_fit(proc_text_values(meminfo@), proc_text_values(status@)),
        ensures
            match r {
                Ok(s) => {
                    let m = proc_text_values(meminfo@);
                    let p = proc_text_values(status@);
                    &&& first_missing(m, p) is None
                    &&& s.mem_total_bytes == m["MemTotal"@] * 1024
                    &&& s.mem_available_bytes == m["MemAvailable"@] * 1024
                    &&& s.process_rss_bytes == p["VmRSS"@] * 1024
                    &&& s.process_swap_bytes == value_or_zero(p, "VmSwap"@) * 1024
                    &&& s.thread_count == value_or_zero(p, "Threads"@)
                },
                Err(missing) => first_missing(
                    proc_text_values(meminfo@),
                    proc_text_values(status@),
                ) == Some(missing.key@),
            },
    {
        let meminfo = parse_proc_key_values(meminfo);
        let status = parse_proc_key_values(status);
        let mem_total_bytes: u64 = match read_required_kb(&meminfo, "MemTotal") {
            Ok(bytes) => bytes,
            Err(missing) => {
                return Err(missing);
            },
        };
        let mem_available_bytes: u64 = match read_required_kb(&meminfo, "MemAvailable") {
            Ok(bytes) => bytes,
            Err(missing) => {
                return Err(missing);
            },
        };
        let process_rss_bytes: u64 = match read_required_kb(&status, "VmRSS") {
            Ok(bytes) => bytes,
            Err(missing) => {
                return Err(missing);
            },
        };
        Ok(
            Self {
                mem_total_bytes,
                mem_available_bytes,
                process_rss_bytes,
                process_swap_bytes: read_optional_kb(&status, "VmSwap"),
                thread_count: read_optional_raw(&status, "Threads"),
            },
        )
    }

    /// Resident and swapped memory of the process.
    pub fn process_total_bytes(&self) -> (r: u64)
        ensures
            r == self.total_spec(),
    {
        self.process_rss_bytes.saturating_add(self.process_swap_bytes)
    }
}

/// Whether a setting switches something on.
pub fn env_flag_enabled(value: Option<&str>) -> (r: bool)
    ensures
        r == switched_on(text_view(value)),
{
    match value {
        None => false,
        Some(text) => {
            let chars = chars_of(text);
            let chars = chars.as_slice();
            same_text(chars, "1") || same_text(chars, "true") || same_text(chars, "TRUE")
                || same_text(chars, "yes") || same_text(chars, "YES")
        },
    }
}

/// Whether the number of MiB that a setting gives can be counted in bytes.
pub fn env_mib_fits(value: Option<&str>) -> (r: bool)
    ensures
        r == mib_setting_fits(text_view(value)),
{
    match value {
        None => true,
        Some(text) => match parse_u64(chars_of(text).as_slice()) {
            Ok(n) => n <= u64::MAX / 1_048_576,
            Err(_) => true,
        },
    }
}

/// A setting in MiB as bytes, or the default if it is not set or not a number.
pub fn env_mib(value: Option<&str>, default_bytes: u64) -> (r: u64)
    requires
        mib_setting_fits(text_view(value)),
    ensures
        r == mib_setting_bytes(text_view(value), default_bytes),
{
    match value {
        None => default_bytes,
        Some(text) => match parse_u64(chars_of(text).as_slice()) {
            Ok(n) => mib(n),
            Err(_) => default_bytes,
        },
    }
}

impl MemoryWatchdogConfig {
    /// The limits that the environment sets, each in MiB, with defaults for the rest.
    pub fn from_env(
        min_available: Option<&str>,
        min_process: Option<&str>,
        max_process: Option<&str>,
        max_swap: Option<&str>,
    ) -> (r: Self)
        requires
            mib_setting_fits(text_view(min_available)),
            mib_setting_fits(text_view(min_process)),
            mib_setting_fits(text_view(max_process)),
            mib_setting_fits(text_view(max_swap)),
        ensures
            r.min_available_bytes == mib_setting_bytes(
                text_view(min_available),
                DEFAULT_MIN_AVAILABLE_BYTES,
            ),
            r.min_process_bytes == mib_setting_bytes(
                text_view(min_process),
                DEFAULT_MIN_PROCESS_BYTES,
            ),
            r.max_process_bytes == mib_setting_bytes(
                text_view(max_process),
                DEFAULT_MAX_PROCESS_BYTES,
            ),
            r.max_swap_bytes == mib_setting_bytes(text_view(max_swap), DEFAULT_MAX_SWAP_BYTES),
    {
        Self {
            min_available_bytes: env_mib(min_available, DEFAULT_MIN_AVAILABLE_BYTES),
            min_process_bytes: env_mib(min_process, DEFAULT_MIN_PROCESS_BYTES),
            max_process_bytes: env_mib(max_process, DEFAULT_MAX_PROCESS_BYTES),
            max_swap_bytes: env_mib(max_swap, DEFAULT_MAX_SWAP_BYTES),
        }
    }

    /// Why the daemon must restart, if it must.
    pub fn critical_reason(&self, snapshot: &MemorySnapshot) -> (r: Option<String>)
        ensures
            match r {
                Some(reason) => self.is_critical(*snapshot) && reason@ == self.reason_text(
                    *snapshot,
                ),
                None => !self.is_critical(*snapshot),
            },
    {
        if snapshot.process_swap_bytes >= self.max_swap_bytes {
            let mut r = "process swap ".to_owned();
            r.append(format_bytes(snapshot.process_swap_bytes).as_str());
            r.append(" reached limit ");
            r.append(format_bytes(self.max_swap_bytes).as_str());
            return Some(r);
        }
        if snapshot.process_total_bytes() >= self.max_process_bytes {
            let mut r = "process rss+swap ".to_owned();
            r.append(format_bytes(snapshot.process_total_bytes()).as_str());
            r.append(" reached limit ");
            r.append(format_bytes(self.max_process_bytes).as_str());
            return Some(r);
        }
        if snapshot.mem_available_bytes < self.min_available_bytes
            && snapshot.process_total_bytes() >= self.min_process_bytes {
            let mut r = "available memory ".to_owned();
            r.append(format_bytes(snapshot.mem_available_bytes).as_str());
            r.append(" below limit ");
            r.append(format_bytes(self.min_available_bytes).as_str());
            r.append(" while lqosd uses ");
            r.append(format_bytes(snapshot.process_total_bytes()).as_str());
            return Some(r);
        }
        None
    }
}

/// Appends the part of the log messages that describes the process.
fn append_process(message: &mut String, snapshot: &MemorySnapshot)
    ensures
        final(message)@ == old(message)@ + process_text(*snapshot),
{
    message.append(" process_rss=");
    message.append(format_bytes(snapshot.process_rss_bytes).as_str());
    message.append(" process_swap=");
    message.append(format_bytes(snapshot.process_swap_bytes).as_str());
    message.append(" process_total=");
    message.append(format_bytes(snapshot.process_total_bytes()).as_str());
    message.append(" threads=");
    message.append(format_unsigned(snapshot.thread_count as u128).as_str());
    assert(message@ =~= old(message)@ + process_text(*snapshot));
}

/// The warning about memory pressure.
pub fn pressure_warning(snapshot: &MemorySnapshot) -> (r: String)
    ensures
        r@ == pressure_text(*snapshot),
{
    let mut r = "lqosd memory pressure warning: mem_available=".to_owned();
    r.append(format_bytes(snapshot.mem_available_bytes).as_str());
    append_process(&mut r, snapshot);
    r
}

/// The message about a restart: the reason, the snapshot, and the limits.
pub fn restart_report(
    snapshot: &MemorySnapshot,
    config: &MemoryWatchdogConfig,
    reason: &str,
) -> (r: String)
    ensures
        r@ == restart_text(*snapshot, *config, reason@),
{
    let mut r = "lqosd memory watchdog restarting daemon: reason=".to_owned();
    r.append(reason);
    r.append(" mem_available=");
    r.append(format_bytes(snapshot.mem_available_bytes).as_str());
    r.append(" mem_total=");
    r.append(format_bytes(snapshot.mem_total_bytes).as_str());
    append_process(&mut r, snapshot);
    r.append(" thresholds=min_available:");
    r.append(format_bytes(config.min_available_bytes).as_str());
    r.append(" min_process:");
    r.append(format_bytes(config.min_process_bytes).as_str());
    r.append(" max_process:");
    r.append(format_bytes(config.max_process_bytes).as_str());
    r.append(" max_swap:");
    r.append(format_bytes(config.max_swap_bytes).as_str());
    r
}

/// The message with the counters of the daemon, which follows the one about the restart.
pub fn diagnostics_report(
    flows_tracked: u64,
    bus_requests: u64,
    time_to_poll_hosts_us: u64,
    high_watermark_down: u64,
    high_watermark_up: u64,
) -> (r: String)
    ensures
        r@ == diagnostics_text(
            flows_tracked,
            bus_requests,
            time_to_poll_hosts_us,
            high_watermark_down,
            high_watermark_up,
        ),
{
    let mut r = "lqosd memory watchdog diagnostics: flows_tracked=".to_owned();
    r.append(format_unsigned(flows_tracked as u128).as_str());
    r.append(" bus_requests=");
    r.append(format_unsigned(bus_requests as u128).as_str());
    r.append(" time_to_poll_hosts_us=");
    r.append(format_unsigned(time_to_poll_hosts_us as u128).as_str());
    r.append(" high_watermark_down=");
    r.append(format_unsigned(high_watermark_down as u128).as_str());
    r.append(" high_watermark_up=");
    r.append(format_unsigned(high_watermark_up as u128).as_str());
    r
}

impl MemoryWatchdog {
    /// A watchdog that has not warned yet.
    pub fn new() -> (r: Self)
        ensures
            !r.warned_about_pressure,
    {
        Self { warned_about_pressure: false }
    }

    /// Takes a sample, or `None` if none could be taken, and decides what to do.
    pub fn observe(
        &mut self,
        config: &MemoryWatchdogConfig,
        sample: Option<MemorySnapshot>,
    ) -> (r: WatchdogAction)
        ensures
            *final(self) == old(self).next(*config, sample),
            r@ == old(self).action(*config, sample),
    {
        let snapshot = match sample {
            Some(snapshot) => snapshot,
            None => {
                return WatchdogAction::ReportUnreadable;
            },
        };
        if let Some(reason) = config.critical_reason(&snapshot) {
            return WatchdogAction::Restart(reason);
        }
        if snapshot.mem_available_bytes < PRESSURE_WARNING_AVAILABLE_BYTES {
            if !self.warned_about_pressure {
                self.warned_about_pressure = true;
                return WatchdogAction::Warn(pressure_warning(&snapshot));
            }
        } else {
            self.warned_about_pressure = false;
        }
        WatchdogAction::Wait
    }
}

/// A line with a key, a colon, any whitespace, a number, and whatever follows after more
/// whitespace gives the key that number.
pub proof fn proc_line_gives_its_number(
    key: Seq<char>,
    blanks: Seq<char>,
    value: u64,
    unit: Seq<char>,
)
    requires
        !key.contains(':'),
        forall|i: int| 0 <= i < blanks.len() ==> text::whitespace(#[trigger] blanks[i]),
        unit.len() > 0 ==> text::whitespace(unit.first()),
    ensures
        proc_entry(
            key + seq![':'] + (blanks + (decimal::decimal(value as nat) + unit)),
        ) == Some((key, value)),
{
    let digits = decimal::decimal(value as nat);
    text::lemma_split_step(key, ':', blanks + (digits + unit));
    text::lemma_trim_start_before(blanks, digits + unit);
    decimal::lemma_decimal_digits(value as nat);
    assert forall|i: int| 0 <= i < digits.len() implies !text::whitespace(
        #[trigger] digits[i],
    ) by {
        assert(decimal::is_digit(digits[i]));
    }
    assert((digits + unit).first() == digits[0]);
    text::lemma_word_len(digits, unit);
    assert((digits + unit).take(digits.len() as int) == digits);
    decimal::lemma_decimal_reads_back(value);
}

/// More use of memory, or less of it available, never makes a critical state harmless.
pub proof fn critical_state_stays_critical(
    config: MemoryWatchdogConfig,
    s: MemorySnapshot,
    worse: MemorySnapshot,
)
    requires
        config.is_critical(s),
        worse.process_rss_bytes >= s.process_rss_bytes,
        worse.process_swap_bytes >= s.process_swap_bytes,
        worse.mem_available_bytes <= s.mem_available_bytes,
    ensures
        config.is_critical(worse),
{
}

/// A process below all of its limits is left alone, however little memory is available.
pub proof fn small_process_is_left_alone(config: MemoryWatchdogConfig, s: MemorySnapshot)
    requires
        s.process_swap_bytes < config.max_swap_bytes,
        s.total_spec() < config.max_process_bytes,
        s.total_spec() < config.min_process_bytes,
    ensures
        !config.is_critical(s),
{
}

/// The watchdog after these samples.
pub open spec fn watched(
    start: MemoryWatchdog,
    config: MemoryWatchdogConfig,
    samples: Seq<Option<MemorySnapshot>>,
) -> MemoryWatchdog
    decreases samples.len(),
{
    if samples.len() == 0 {
        start
    } else {
        watched(start, config, samples.drop_last()).next(config, samples.last())
    }
}

/// What was done after the `i`th sample.
pub open spec fn action_at(
    start: MemoryWatchdog,
    config: MemoryWatchdogConfig,
    samples: Seq<Option<MemorySnapshot>>,
    i: int,
) -> WatchdogActionView {
    watched(start, config, samples.take(i)).action(config, samples[i])
}

/// Once the watchdog has warned, it stays so while no sample shows plenty of memory.
proof fn lemma_warning_lasts(
    start: MemoryWatchdog,
    config: MemoryWatchdogConfig,
    samples: Seq<Option<MemorySnapshot>>,
    i: int,
    j: int,
)
    requires
        0 <= i < j <= samples.len(),
        action_at(start, config, samples, i) is Warn,
        forall|k: int|
            i < k < j ==> (#[trigger] samples[k] matches Some(s) ==> under_pressure(s)),
    ensures
        watched(start, config, samples.take(j)).warned_about_pressure,
    decreases j,
{
    let upto = samples.take(j);
    assert(upto.drop_last() == samples.take(j - 1));
    assert(upto.last() == samples[j - 1]);
    if i < j - 1 {
        lemma_warning_lasts(start, config, samples, i, j - 1);
    }
}

/// Between two warnings there is a sample that shows plenty of memory: a spell of pressure is
/// reported once.
pub proof fn pressure_is_reported_once(
    start: MemoryWatchdog,
    config: MemoryWatchdogConfig,
    samples: Seq<Option<MemorySnapshot>>,
    i: int,
    j: int,
)
    requires
        0 <= i < j < samples.len(),
        action_at(start, config, samples, i) is Warn,
        action_at(start, config, samples, j) is Warn,
    ensures
        exists|k: int|
            i < k < j && (#[trigger] samples[k] matches Some(s) && !under_pressure(s)),
{
    if forall|k: int| i < k < j ==> (#[trigger] samples[k] matches Some(s) ==> under_pressure(s)) {
        lemma_warning_lasts(start, config, samples, i, j);
    }
}

/// A sample under pressure that is not critical is reported unless a warning stands: the
/// first one after plenty of memory always is.
pub proof fn new_pressure_is_reported(
    watchdog: MemoryWatchdog,
    config: MemoryWatchdogConfig,
    plenty: MemorySnapshot,
    tight: MemorySnapshot,
)
    requires
        !config.is_critical(plenty),
        !under_pressure(plenty),
        !config.is_critical(tight),
        under_pressure(tight),
    ensures
        watchdog.next(config, Some(plenty)).action(config, Some(tight)) == WatchdogActionView::Warn(
            pressure_text(tight),
        ),
{
}

} // verus!
