//! What carrying out a command is for, said of the command and of what is done for it.

use crate::command_runner::CommandRunner;
use crate::remote_commands::{
    process_remote_command_batch, run_command_with, CommandOutcome, CommandStep, ConfigChange,
    InsightSettings, RemoteCommand, RemoteCommandAction,
};
use vstd::prelude::*;

verus! {

/// Whether `steps` are what is done for a command, given what comes of each step: the first is
/// the start of the command, and each outcome leads to the next.
pub open spec fn carries_out(
    command: RemoteCommand,
    permitted: bool,
    steps: Seq<CommandStep>,
    outcomes: Seq<CommandOutcome>,
) -> bool {
    &&& steps.len() == outcomes.len() + 1
    &&& call_ensures(run_command_with, (command, permitted), steps[0])
    &&& forall|i: int|
        #![trigger outcomes[i]]
        0 <= i < outcomes.len() ==> call_ensures(
            CommandStep::next,
            (steps[i], outcomes[i]),
            steps[i + 1],
        )
}

/// Whether nothing is left to do, and the batch goes on.
pub open spec fn goes_on(step: CommandStep) -> bool {
    step == CommandStep::Finished(RemoteCommandAction::Continue)
}

/// Once finished, a command stays finished.
proof fn lemma_stays_finished(
    command: RemoteCommand,
    permitted: bool,
    steps: Seq<CommandStep>,
    outcomes: Seq<CommandOutcome>,
    i: int,
    j: int,
)
    requires
        carries_out(command, permitted, steps, outcomes),
        0 <= i <= j < steps.len(),
        steps[i] is Finished,
    ensures
        steps[j] == steps[i],
    decreases j - i,
{
    if i < j {
        lemma_stays_finished(command, permitted, steps, outcomes, i, j - 1);
        let outcome = outcomes[j - 1];
        assert(steps[j]@ == steps[j - 1]@.next_spec(outcome@));
    }
}

/// Without permission nothing is done for a command but to log that it is ignored.
pub proof fn unpermitted_command_is_only_logged(
    command: RemoteCommand,
    steps: Seq<CommandStep>,
    outcomes: Seq<CommandOutcome>,
    i: int,
)
    requires
        carries_out(command, false, steps, outcomes),
        0 < i < steps.len(),
    ensures
        steps[0] matches CommandStep::Warn(message) && message@
            == "Ignoring remote command because current license tier does not permit it"@,
        goes_on(steps[i]),
{
    let outcome = outcomes[0];
    lemma_stays_finished(command, false, steps, outcomes, 1, i);
}

/// A permitted message is logged as it came, and nothing else is done.
pub proof fn message_is_logged(
    message: String,
    steps: Seq<CommandStep>,
    outcomes: Seq<CommandOutcome>,
    i: int,
)
    requires
        carries_out(RemoteCommand::Log(message), true, steps, outcomes),
        0 < i < steps.len(),
    ensures
        steps[0] matches CommandStep::Warn(logged) && logged@ == "Message from Insight: "@
            + message@,
        goes_on(steps[i]),
{
    let outcome = outcomes[0];
    lemma_stays_finished(RemoteCommand::Log(message), true, steps, outcomes, 1, i);
}

/// A permitted restart of the scheduler restarts it once, and does nothing else.
pub proof fn scheduler_restart_only_restarts_scheduler(
    steps: Seq<CommandStep>,
    outcomes: Seq<CommandOutcome>,
    i: int,
)
    requires
        carries_out(RemoteCommand::RestartScheduler, true, steps, outcomes),
        0 < i < steps.len(),
    ensures
        steps[0] is RestartScheduler,
        goes_on(steps[i]),
{
    let outcome = outcomes[0];
    lemma_stays_finished(RemoteCommand::RestartScheduler, true, steps, outcomes, 1, i);
}

/// A permitted restart of the daemon asks once for a shutdown, logs if that cannot be had, and
/// stops the batch either way.
pub proof fn daemon_restart_asks_for_shutdown(
    steps: Seq<CommandStep>,
    outcomes: Seq<CommandOutcome>,
    i: int,
)
    requires
        carries_out(RemoteCommand::RestartLqosd, true, steps, outcomes),
        0 < i < steps.len(),
    ensures
        steps[0] matches CommandStep::RequestShutdown(reason) && reason@
            == "Insight requested lqosd restart"@,
        match outcomes[0] {
            CommandOutcome::Done => steps[i] == CommandStep::Finished(
                RemoteCommandAction::StopBatch,
            ),
            CommandOutcome::Failed(e) => if i == 1 {
                steps[i] matches CommandStep::ReportShutdownFailure(logged) && logged@
                    == "Unable to request graceful lqosd restart: "@ + e@
            } else {
                steps[i] == CommandStep::Finished(RemoteCommandAction::StopBatch)
            },
        },
{
    let first = outcomes[0];
    if first is Done {
        lemma_stays_finished(RemoteCommand::RestartLqosd, true, steps, outcomes, 1, i);
    } else if i > 1 {
        let second = outcomes[1];
        lemma_stays_finished(RemoteCommand::RestartLqosd, true, steps, outcomes, 2, i);
    }
}

/// The change of the configuration that a command asks for, if it asks for one.
pub open spec fn asks_for(command: RemoteCommand, change: ConfigChange) -> bool {
    match command {
        RemoteCommand::SetInsightControlledTopology { enabled } => change
            == ConfigChange::InsightTopology(enabled),
        RemoteCommand::SetInsightRole { role } => change matches ConfigChange::InsightRole(stored)
            && stored@ == role@,
        _ => false,
    }
}

/// What is done for a permitted change of the configuration. The configuration is loaded, and
/// if that fails nothing more is done. Else the change that was asked for is stored, a failure
/// of that is logged, and the scheduler is enabled and then restarted in any case. The batch
/// goes on.
pub proof fn change_that_is_asked_for_is_stored(
    command: RemoteCommand,
    steps: Seq<CommandStep>,
    outcomes: Seq<CommandOutcome>,
    i: int,
)
    requires
        command is SetInsightControlledTopology || command is SetInsightRole,
        carries_out(command, true, steps, outcomes),
        0 <= i < steps.len(),
    ensures
        i == 0 ==> (steps[i] matches CommandStep::LoadConfig(change) && asks_for(command, change)),
        i > 0 && outcomes[0] is Failed ==> goes_on(steps[i]),
        i == 1 && outcomes[0] is Done ==> (steps[i] matches CommandStep::UpdateConfig(change)
            && asks_for(command, change)),
        i > 1 && outcomes[0] is Done ==> match outcomes[1] {
            CommandOutcome::Done => {
                &&& i == 2 ==> steps[i] is EnableScheduler
                &&& i == 3 ==> steps[i] is RestartScheduler
                &&& i >= 4 ==> goes_on(steps[i])
            },
            CommandOutcome::Failed(e) => {
                &&& i == 2 ==> (steps[i] matches CommandStep::ReportUpdateFailure(logged) && logged@
                    == "Failed to update config: "@ + e@)
                &&& i == 3 ==> steps[i] is EnableScheduler
                &&& i == 4 ==> steps[i] is RestartScheduler
                &&& i >= 5 ==> goes_on(steps[i])
            },
        },
{
    if i > 0 {
        let o0 = outcomes[0];
        if o0 is Failed {
            lemma_stays_finished(command, true, steps, outcomes, 1, i);
        } else if i > 1 {
            let o1 = outcomes[1];
            if i > 2 {
                let o2 = outcomes[2];
                if i > 3 {
                    let o3 = outcomes[3];
                    if o1 is Done {
                        lemma_stays_finished(command, true, steps, outcomes, 4, i);
                    } else if i > 4 {
                        let o4 = outcomes[4];
                        lemma_stays_finished(command, true, steps, outcomes, 5, i);
                    }
                }
            }
        }
    }
}

/// Applying a change sets what the change is about and keeps the rest.
pub proof fn change_sets_what_it_is_about(
    change: ConfigChange,
    settings: InsightSettings,
    r: InsightSettings,
)
    requires
        call_ensures(ConfigChange::apply, (change, settings), r),
    ensures
        change matches ConfigChange::InsightTopology(enabled) ==> r.enable_insight_topology
            == Some(enabled) && r.insight_topology_role == settings.insight_topology_role,
        change matches ConfigChange::InsightRole(role) ==> r.insight_topology_role == Some(role)
            && r.enable_insight_topology == settings.enable_insight_topology,
{
}

/// After a command that changes the configuration, the stored settings are those that it asked
/// for, and the other setting is as it was.
pub proof fn stored_settings_are_those_asked_for(
    command: RemoteCommand,
    steps: Seq<CommandStep>,
    outcomes: Seq<CommandOutcome>,
    i: int,
    settings: InsightSettings,
    stored: InsightSettings,
)
    requires
        carries_out(command, true, steps, outcomes),
        0 <= i < steps.len(),
        steps[i] matches CommandStep::UpdateConfig(change) && call_ensures(
            ConfigChange::apply,
            (change, settings),
            stored,
        ),
    ensures
        match command {
            RemoteCommand::SetInsightControlledTopology { enabled } => {
                &&& stored.enable_insight_topology == Some(enabled)
                &&& stored.insight_topology_role == settings.insight_topology_role
            },
            RemoteCommand::SetInsightRole { role } => {
                &&& stored.insight_topology_role matches Some(text) && text@ == role@
                &&& stored.enable_insight_topology == settings.enable_insight_topology
            },
            _ => false,
        },
{
    match command {
        RemoteCommand::SetInsightControlledTopology { enabled } => {
            change_that_is_asked_for_is_stored(command, steps, outcomes, i);
        },
        RemoteCommand::SetInsightRole { role } => {
            change_that_is_asked_for_is_stored(command, steps, outcomes, i);
        },
        RemoteCommand::Log(message) => if i > 0 {
            message_is_logged(message, steps, outcomes, i);
        },
        RemoteCommand::RestartLqosd => if i > 0 {
            daemon_restart_asks_for_shutdown(steps, outcomes, i);
        },
        RemoteCommand::RestartScheduler => if i > 0 {
            scheduler_restart_only_restarts_scheduler(steps, outcomes, i);
        },
    }
}

/// A batch falls into the commands that were run and those that were left, in order and with
/// none lost. Each that was run let the batch go on, but for the last if any were left: that
/// one stopped it.
pub proof fn batch_falls_in_two<F: FnMut(RemoteCommand) -> RemoteCommandAction>(
    commands: Vec<RemoteCommand>,
    run: F,
    r: (Vec<RemoteCommand>, CommandRunner<F>),
)
    requires
        call_ensures(process_remote_command_batch::<F>, (commands, run), r),
    ensures
        r.1.ran() + r.0@ == commands@,
        commands@.len() > 0 ==> r.1.ran().len() > 0,
        forall|i: int|
            0 <= i < r.1.ran().len() - 1 ==> call_ensures(
                run,
                (#[trigger] r.1.ran()[i],),
                RemoteCommandAction::Continue,
            ),
        r.0@.len() > 0 ==> call_ensures(
            run,
            (r.1.ran().last(),),
            RemoteCommandAction::StopBatch,
        ),
{
    let ran = r.1.ran();
    let actions = choose|actions: Seq<RemoteCommandAction>|
        {
            &&& #[trigger] crate::remote_commands::batch_trace(run, commands@, actions)
            &&& ran == commands@.take(actions.len() as int)
            &&& r.0@ == commands@.skip(actions.len() as int)
        };
    assert(ran + r.0@ == commands@);
    assert forall|i: int| 0 <= i < ran.len() - 1 implies call_ensures(
        run,
        (#[trigger] ran[i],),
        RemoteCommandAction::Continue,
    ) by {
        assert(actions[i] == RemoteCommandAction::Continue);
        assert(ran[i] == commands@[i]);
    }
    if r.0@.len() > 0 {
        assert(actions[actions.len() - 1] == RemoteCommandAction::StopBatch);
        assert(ran.last() == commands@[actions.len() - 1]);
    }
}

/// If it is fixed which commands stop a batch, no command that was run stops it but the last,
/// and the last does if any command was left. So the commands that were run are those up to the
/// first that stops the batch.
pub proof fn batch_ends_with_the_first_that_stops_it<
    F: FnMut(RemoteCommand) -> RemoteCommandAction,
>(
    commands: Vec<RemoteCommand>,
    run: F,
    stops: spec_fn(RemoteCommand) -> bool,
    r: (Vec<RemoteCommand>, CommandRunner<F>),
)
    requires
        call_ensures(process_remote_command_batch::<F>, (commands, run), r),
        forall|command: RemoteCommand, action: RemoteCommandAction| #[trigger]
            call_ensures(run, (command,), action) ==> (action == RemoteCommandAction::StopBatch
                <==> stops(command)),
    ensures
        r.1.ran() + r.0@ == commands@,
        forall|i: int| 0 <= i < r.1.ran().len() - 1 ==> !stops(#[trigger] r.1.ran()[i]),
        r.0@.len() > 0 ==> r.1.ran().len() > 0 && stops(r.1.ran().last()),
{
    batch_falls_in_two(commands, run, r);
}

} // verus!
