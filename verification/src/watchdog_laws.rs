//! What the memory watchdog is for, said of its inputs and results alone.

use crate::byte_size;
use crate::memory_watchdog::{
    MemorySnapshot, MemoryWatchdog, MemoryWatchdogConfig, WatchdogAction,
};
use vstd::prelude::*;

verus! {

/// Whether the process is at one of its limits, or large while little memory is available.
pub open spec fn limit_is_reached(config: MemoryWatchdogConfig, s: MemorySnapshot) -> bool {
    ||| s.process_swap_bytes >= config.max_swap_bytes
    ||| s.process_rss_bytes + s.process_swap_bytes >= config.max_process_bytes
    ||| s.mem_available_bytes < config.min_available_bytes && s.process_rss_bytes
        + s.process_swap_bytes >= config.min_process_bytes
}

/// Resident and swapped memory count together. A sum that no counter holds counts as the
/// largest number.
pub proof fn total_counts_resident_and_swapped_memory(s: MemorySnapshot, r: u64)
    requires
        call_ensures(MemorySnapshot::process_total_bytes, (&s,), r),
    ensures
        s.process_rss_bytes + s.process_swap_bytes <= u64::MAX ==> r == s.process_rss_bytes
            + s.process_swap_bytes,
        s.process_rss_bytes + s.process_swap_bytes > u64::MAX ==> r == u64::MAX,
{
}

/// There is a reason to restart exactly if a limit is reached. Swap at its limit is enough, and
/// so is a process at its limit, however much memory is available; little available memory is
/// one only if the process is large.
pub proof fn reason_is_a_limit_reached(
    config: MemoryWatchdogConfig,
    s: MemorySnapshot,
    r: Option<String>,
)
    requires
        call_ensures(MemoryWatchdogConfig::critical_reason, (&config, &s), r),
    ensures
        s.process_swap_bytes >= config.max_swap_bytes ==> r is Some,
        s.process_rss_bytes + s.process_swap_bytes >= config.max_process_bytes ==> r is Some,
        s.mem_available_bytes < config.min_available_bytes && s.process_rss_bytes
            + s.process_swap_bytes >= config.min_process_bytes ==> r is Some,
        r is Some ==> limit_is_reached(config, s),
{
}

/// The reason names the limit that is reached, the size that reached it, and the limit itself.
/// Of several limits, swap is named before the process, and the process before the available
/// memory.
pub open spec fn names_its_limit(
    config: MemoryWatchdogConfig,
    s: MemorySnapshot,
    reason: Seq<char>,
) -> bool {
    let used = if s.process_rss_bytes + s.process_swap_bytes <= u64::MAX {
        (s.process_rss_bytes + s.process_swap_bytes) as nat
    } else {
        u64::MAX as nat
    };
    if s.process_swap_bytes >= config.max_swap_bytes {
        reason == "process swap "@ + byte_size::mib_text(s.process_swap_bytes as nat)
            + " reached limit "@ + byte_size::mib_text(config.max_swap_bytes as nat)
    } else if used >= config.max_process_bytes {
        reason == "process rss+swap "@ + byte_size::mib_text(used) + " reached limit "@
            + byte_size::mib_text(config.max_process_bytes as nat)
    } else {
        reason == "available memory "@ + byte_size::mib_text(s.mem_available_bytes as nat)
            + " below limit "@ + byte_size::mib_text(config.min_available_bytes as nat)
            + " while lqosd uses "@ + byte_size::mib_text(used)
    }
}

/// The reason that is given names the limit that is reached.
pub proof fn reason_names_its_limit(
    config: MemoryWatchdogConfig,
    s: MemorySnapshot,
    r: Option<String>,
)
    requires
        call_ensures(MemoryWatchdogConfig::critical_reason, (&config, &s), r),
    ensures
        r matches Some(reason) ==> names_its_limit(config, s, reason@),
{
}

/// The daemon is restarted after every sample in which a limit is reached, whatever the
/// watchdog saw or warned about before, and after no other. The restart says why.
pub proof fn restart_follows_exactly_a_limit_reached(
    before: MemoryWatchdog,
    config: MemoryWatchdogConfig,
    sample: Option<MemorySnapshot>,
    after: MemoryWatchdog,
    action: WatchdogAction,
)
    requires
        exists|w: &mut MemoryWatchdog|
            *w == before && *final(w) == after && #[trigger] call_ensures(
                MemoryWatchdog::observe,
                (w, &config, sample),
                action,
            ),
    ensures
        action is Restart <==> (sample matches Some(s) && limit_is_reached(config, s)),
        action matches WatchdogAction::Restart(reason) ==> names_its_limit(
            config,
            sample->0,
            reason@,
        ),
{
}

/// A sample that could not be taken is reported as such, and changes nothing; no other is.
pub proof fn unreadable_sample_is_reported(
    before: MemoryWatchdog,
    config: MemoryWatchdogConfig,
    sample: Option<MemorySnapshot>,
    after: MemoryWatchdog,
    action: WatchdogAction,
)
    requires
        exists|w: &mut MemoryWatchdog|
            *w == before && *final(w) == after && #[trigger] call_ensures(
                MemoryWatchdog::observe,
                (w, &config, sample),
                action,
            ),
    ensures
        action is ReportUnreadable <==> sample is None,
        sample is None ==> after == before,
{
}

/// Whether a sample was taken, reaches no limit, and so lets the daemon go on.
pub open spec fn harmless(config: MemoryWatchdogConfig, sample: Option<MemorySnapshot>) -> bool {
    sample matches Some(s) && !limit_is_reached(config, s)
}

/// Whether a sample shows less than 3072 MiB of available memory.
pub open spec fn tight(sample: Option<MemorySnapshot>) -> bool {
    sample matches Some(s) && s.mem_available_bytes < 3072 * 1024 * 1024
}

/// What the watchdog remembers changes only with harmless samples.
proof fn lemma_memory_lasts(
    config: MemoryWatchdogConfig,
    samples: Seq<Option<MemorySnapshot>>,
    states: Seq<MemoryWatchdog>,
    i: int,
    j: int,
)
    requires
        0 <= i <= j <= samples.len(),
        states.len() == samples.len() + 1,
        forall|k: int|
            #![trigger samples[k]]
            0 <= k < samples.len() ==> states[k + 1] == states[k].next(config, samples[k]),
        forall|k: int| i <= k < j ==> !harmless(config, #[trigger] samples[k]),
    ensures
        states[j] == states[i],
    decreases j - i,
{
    if i < j {
        lemma_memory_lasts(config, samples, states, i, j - 1);
        assert(!harmless(config, samples[j - 1]));
    }
}

/// A harmless sample with little available memory is warned about exactly if the last harmless
/// sample before it showed plenty. So a spell of pressure is reported once, at its start, and
/// neither restarts that did not happen nor samples that could not be taken end it.
pub proof fn warning_comes_at_the_start_of_a_spell(
    config: MemoryWatchdogConfig,
    samples: Seq<Option<MemorySnapshot>>,
    states: Seq<MemoryWatchdog>,
    actions: Seq<WatchdogAction>,
    i: int,
    j: int,
)
    requires
        states.len() == samples.len() + 1,
        actions.len() == samples.len(),
        forall|i: int|
            #![trigger samples[i]]
            0 <= i < samples.len() ==> exists|w: &mut MemoryWatchdog|
                *w == states[i] && *final(w) == states[i + 1] && #[trigger] call_ensures(
                    MemoryWatchdog::observe,
                    (w, &config, samples[i]),
                    actions[i],
                ),
        0 <= i < j < samples.len(),
        harmless(config, samples[i]),
        forall|k: int| i < k < j ==> !harmless(config, #[trigger] samples[k]),
        harmless(config, samples[j]),
    ensures
        actions[j] is Warn <==> tight(samples[j]) && !tight(samples[i]),
        actions[j] is Wait <==> !tight(samples[j]) || tight(samples[i]),
{
    assert forall|k: int|
        #![trigger samples[k]]
        0 <= k < samples.len() implies states[k + 1] == states[k].next(config, samples[k]) by {}
    lemma_memory_lasts(config, samples, states, i + 1, j);
    assert(states[i + 1] == states[i].next(config, samples[i]));
    assert(actions[j]@ == states[j].action(config, samples[j]));
}

/// The first harmless sample of a new watchdog is warned about exactly if it shows little
/// available memory.
pub proof fn first_spell_is_reported(
    config: MemoryWatchdogConfig,
    samples: Seq<Option<MemorySnapshot>>,
    states: Seq<MemoryWatchdog>,
    actions: Seq<WatchdogAction>,
    j: int,
)
    requires
        states.len() == samples.len() + 1,
        actions.len() == samples.len(),
        forall|i: int|
            #![trigger samples[i]]
            0 <= i < samples.len() ==> exists|w: &mut MemoryWatchdog|
                *w == states[i] && *final(w) == states[i + 1] && #[trigger] call_ensures(
                    MemoryWatchdog::observe,
                    (w, &config, samples[i]),
                    actions[i],
                ),
        call_ensures(MemoryWatchdog::new, (), states[0]),
        0 <= j < samples.len(),
        forall|k: int| 0 <= k < j ==> !harmless(config, #[trigger] samples[k]),
        harmless(config, samples[j]),
    ensures
        actions[j] is Warn <==> tight(samples[j]),
        actions[j] is Wait <==> !tight(samples[j]),
{
    assert forall|k: int|
        #![trigger samples[k]]
        0 <= k < samples.len() implies states[k + 1] == states[k].next(config, samples[k]) by {}
    lemma_memory_lasts(config, samples, states, 0, j);
    assert(actions[j]@ == states[j].action(config, samples[j]));
}

} // verus!
