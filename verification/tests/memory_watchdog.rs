use lqos_control::byte_size::{gib, mib};
use lqos_control::memory_watchdog::{
    diagnostics_report, env_flag_enabled, env_mib, env_mib_fits, parse_proc_key_values,
    pressure_warning, read_optional_kb, read_optional_raw, read_required_kb, restart_report,
    MemorySnapshot, MemoryWatchdog, MemoryWatchdogConfig, WatchdogAction,
    CHECK_INTERVAL_SECONDS, DEFAULT_MAX_PROCESS_BYTES, DEFAULT_MAX_SWAP_BYTES,
    DEFAULT_MIN_AVAILABLE_BYTES, DEFAULT_MIN_PROCESS_BYTES, EXIT_DELAY_MILLISECONDS,
    PRESSURE_WARNING_AVAILABLE_BYTES, WATCHDOG_EXIT_CODE,
};

#[test]
fn proc_parser_reads_kb_and_raw_values() {
    let parsed = parse_proc_key_values(
        "MemTotal:       15458992 kB\nMemAvailable:   12843176 kB\nThreads:\t44\n",
    );

    assert_eq!(
        read_required_kb(&parsed, "MemTotal").unwrap(),
        15_458_992 * 1024
    );
    assert_eq!(read_optional_raw(&parsed, "Threads"), 44);
    assert_eq!(read_optional_kb(&parsed, "VmSwap"), 0);
}

#[test]
fn watchdog_restarts_on_process_swap_limit() {
    let config = MemoryWatchdogConfig {
        min_available_bytes: mib(2_304),
        min_process_bytes: mib(1_024),
        max_process_bytes: gib(4),
        max_swap_bytes: gib(1),
    };
    let snapshot = MemorySnapshot {
        mem_total_bytes: gib(16),
        mem_available_bytes: gib(12),
        process_rss_bytes: mib(900),
        process_swap_bytes: gib(2),
        thread_count: 44,
    };

    assert!(
        config
            .critical_reason(&snapshot)
            .unwrap()
            .contains("process swap")
    );
}

#[test]
fn watchdog_restarts_on_low_available_memory_with_large_lqosd() {
    let config = MemoryWatchdogConfig {
        min_available_bytes: mib(2_304),
        min_process_bytes: mib(1_024),
        max_process_bytes: gib(4),
        max_swap_bytes: gib(1),
    };
    let snapshot = MemorySnapshot {
        mem_total_bytes: gib(16),
        mem_available_bytes: mib(1_900),
        process_rss_bytes: mib(1_500),
        process_swap_bytes: 0,
        thread_count: 44,
    };

    assert!(
        config
            .critical_reason(&snapshot)
            .unwrap()
            .contains("available memory")
    );
}

#[test]
fn watchdog_ignores_low_memory_when_lqosd_is_small() {
    let config = MemoryWatchdogConfig {
        min_available_bytes: mib(2_304),
        min_process_bytes: mib(1_024),
        max_process_bytes: gib(4),
        max_swap_bytes: gib(1),
    };
    let snapshot = MemorySnapshot {
        mem_total_bytes: gib(16),
        mem_available_bytes: mib(1_900),
        process_rss_bytes: mib(256),
        process_swap_bytes: 0,
        thread_count: 44,
    };

    assert!(config.critical_reason(&snapshot).is_none());
}

fn defaults() -> MemoryWatchdogConfig {
    MemoryWatchdogConfig::from_env(None, None, None, None)
}

fn snapshot(available: u64, rss: u64, swap: u64) -> MemorySnapshot {
    MemorySnapshot {
        mem_total_bytes: gib(16),
        mem_available_bytes: available,
        process_rss_bytes: rss,
        process_swap_bytes: swap,
        thread_count: 44,
    }
}

#[test]
fn default_limits_are_those_documented() {
    assert_eq!(CHECK_INTERVAL_SECONDS, 15);
    assert_eq!(PRESSURE_WARNING_AVAILABLE_BYTES, mib(3_072));
    assert_eq!(DEFAULT_MIN_AVAILABLE_BYTES, mib(2_304));
    assert_eq!(DEFAULT_MIN_PROCESS_BYTES, mib(1_024));
    assert_eq!(DEFAULT_MAX_PROCESS_BYTES, gib(4));
    assert_eq!(DEFAULT_MAX_SWAP_BYTES, gib(1));
    assert_eq!(WATCHDOG_EXIT_CODE, 75);
    assert_eq!(EXIT_DELAY_MILLISECONDS, 250);
    assert_eq!(
        defaults(),
        MemoryWatchdogConfig {
            min_available_bytes: mib(2_304),
            min_process_bytes: mib(1_024),
            max_process_bytes: gib(4),
            max_swap_bytes: gib(1),
        }
    );
}

#[test]
fn environment_sets_limits_in_mib() {
    let config = MemoryWatchdogConfig::from_env(Some("100"), Some("+7"), Some(" 8"), Some(""));
    assert_eq!(
        config,
        MemoryWatchdogConfig {
            min_available_bytes: mib(100),
            min_process_bytes: mib(7),
            max_process_bytes: gib(4),
            max_swap_bytes: gib(1),
        }
    );
    assert_eq!(env_mib(Some("3"), 5), mib(3));
    assert_eq!(env_mib(Some("three"), 5), 5);
    assert_eq!(env_mib(None, 5), 5);
    assert!(env_mib_fits(Some("17592186044415")));
    assert!(!env_mib_fits(Some("17592186044416")));
    assert!(env_mib_fits(Some("99999999999999999999")));
    assert!(env_mib_fits(None));
}

#[test]
fn flags_are_enabled_by_five_words() {
    for on in ["1", "true", "TRUE", "yes", "YES"] {
        assert!(env_flag_enabled(Some(on)));
    }
    for off in ["", "0", "True", "Yes", "on", " 1", "true "] {
        assert!(!env_flag_enabled(Some(off)));
    }
    assert!(!env_flag_enabled(None));
}

#[test]
fn reasons_are_given_in_order_and_in_full() {
    let config = defaults();
    assert_eq!(
        config.critical_reason(&snapshot(0, gib(9), gib(1))).unwrap(),
        "process swap 1024.0 MiB reached limit 1024.0 MiB"
    );
    assert_eq!(
        config
            .critical_reason(&snapshot(0, gib(4) - mib(1), mib(1)))
            .unwrap(),
        "process rss+swap 4096.0 MiB reached limit 4096.0 MiB"
    );
    assert_eq!(
        config
            .critical_reason(&snapshot(mib(1_900), mib(1_500), 0))
            .unwrap(),
        "available memory 1900.0 MiB below limit 2304.0 MiB while lqosd uses 1500.0 MiB"
    );
    assert!(config
        .critical_reason(&snapshot(mib(2_304), mib(1_500), 0))
        .is_none());
}

#[test]
fn worse_snapshots_stay_critical() {
    let config = defaults();
    let critical = snapshot(mib(2_000), gib(1), 0);
    assert!(config.critical_reason(&critical).is_some());
    for worse in [
        snapshot(mib(2_000), gib(3), 0),
        snapshot(mib(2_000), gib(1), gib(3)),
        snapshot(0, gib(1), 0),
        snapshot(0, u64::MAX, u64::MAX),
    ] {
        assert!(config.critical_reason(&worse).is_some());
    }
}

#[test]
fn total_of_a_process_saturates() {
    assert_eq!(snapshot(0, 3, 4).process_total_bytes(), 7);
    assert_eq!(snapshot(0, u64::MAX, 1).process_total_bytes(), u64::MAX);
}

const MEMINFO: &str = "MemTotal:       15458992 kB\nMemFree: x kB\nMemAvailable:   12843176 kB\n";
const STATUS: &str = "Name:\tlqosd\nVmRSS:\t  2048 kB\nVmSwap:\t  16 kB\nThreads:\t44\n";

#[test]
fn snapshot_is_read_from_proc() {
    assert!(MemorySnapshot::can_read(MEMINFO, STATUS));
    assert_eq!(
        MemorySnapshot::read(MEMINFO, STATUS).unwrap(),
        MemorySnapshot {
            mem_total_bytes: 15_458_992 * 1024,
            mem_available_bytes: 12_843_176 * 1024,
            process_rss_bytes: 2048 * 1024,
            process_swap_bytes: 16 * 1024,
            thread_count: 44,
        }
    );
    let bare = MemorySnapshot::read(MEMINFO, "VmRSS: 1").unwrap();
    assert_eq!(bare.process_swap_bytes, 0);
    assert_eq!(bare.thread_count, 0);
}

#[test]
fn missing_values_are_named() {
    let missing = |meminfo: &str, status: &str| {
        MemorySnapshot::read(meminfo, status)
            .expect_err("a value is missing")
            .message()
    };
    assert_eq!(
        missing("", STATUS),
        "MemTotal missing from /proc memory data"
    );
    assert_eq!(
        missing("MemTotal: 1", STATUS),
        "MemAvailable missing from /proc memory data"
    );
    assert_eq!(missing(MEMINFO, ""), "VmRSS missing from /proc memory data");
}

#[test]
fn sizes_that_cannot_be_counted_in_bytes_are_found() {
    let huge = "MemTotal: 18014398509481984 kB\n";
    assert!(!MemorySnapshot::can_read(huge, STATUS));
    let fits = "MemTotal: 18014398509481983 kB\nMemAvailable: 1 kB\n";
    assert!(MemorySnapshot::can_read(fits, STATUS));
    assert!(!MemorySnapshot::can_read(
        MEMINFO,
        "VmRSS: 1 kB\nVmSwap: 18014398509481984 kB\n"
    ));
    assert!(MemorySnapshot::can_read(
        "",
        "VmRSS: 18014398509481984 kB\n"
    ));
}

#[test]
fn later_values_replace_earlier_ones() {
    let parsed = parse_proc_key_values("a: 1\nb: 2\na: 3 kB\na: none\n c :4\nd 5\ne:\nf: 6x\n");
    assert_eq!(read_optional_raw(&parsed, "a"), 3);
    assert_eq!(read_optional_raw(&parsed, "b"), 2);
    assert_eq!(read_optional_raw(&parsed, " c "), 4);
    assert_eq!(read_optional_raw(&parsed, "c"), 0);
    assert_eq!(parsed.len(), 3);
}

#[test]
fn pressure_is_reported_once_per_spell() {
    let config = defaults();
    let tight = snapshot(mib(3_000), mib(100), 0);
    let plenty = snapshot(mib(3_072), mib(100), 0);
    let mut watchdog = MemoryWatchdog::new();

    let warned = |action: WatchdogAction| matches!(action, WatchdogAction::Warn(_));
    assert!(warned(watchdog.observe(&config, Some(tight))));
    assert!(!warned(watchdog.observe(&config, Some(tight))));
    assert!(matches!(
        watchdog.observe(&config, None),
        WatchdogAction::ReportUnreadable
    ));
    assert!(!warned(watchdog.observe(&config, Some(tight))));
    assert!(matches!(
        watchdog.observe(&config, Some(plenty)),
        WatchdogAction::Wait
    ));
    assert!(warned(watchdog.observe(&config, Some(tight))));
}

#[test]
fn watchdog_asks_for_a_restart_with_its_reason() {
    let mut watchdog = MemoryWatchdog::new();
    match watchdog.observe(&defaults(), Some(snapshot(gib(12), mib(900), gib(2)))) {
        WatchdogAction::Restart(reason) => assert_eq!(
            reason,
            "process swap 2048.0 MiB reached limit 1024.0 MiB"
        ),
        other => panic!("unexpected action {other:?}"),
    }
}

#[test]
fn log_messages_are_complete() {
    let s = snapshot(mib(1_900), mib(1_500), mib(2));
    assert_eq!(
        pressure_warning(&s),
        "lqosd memory pressure warning: mem_available=1900.0 MiB process_rss=1500.0 MiB \
         process_swap=2.0 MiB process_total=1502.0 MiB threads=44"
    );
    assert_eq!(
        restart_report(&s, &defaults(), "because"),
        "lqosd memory watchdog restarting daemon: reason=because mem_available=1900.0 MiB \
         mem_total=16384.0 MiB process_rss=1500.0 MiB process_swap=2.0 MiB \
         process_total=1502.0 MiB threads=44 thresholds=min_available:2304.0 MiB \
         min_process:1024.0 MiB max_process:4096.0 MiB max_swap:1024.0 MiB"
    );
    assert_eq!(
        diagnostics_report(1, 2, 3, 4, u64::MAX),
        "lqosd memory watchdog diagnostics: flows_tracked=1 bus_requests=2 \
         time_to_poll_hosts_us=3 high_watermark_down=4 high_watermark_up=18446744073709551615"
    );
}
