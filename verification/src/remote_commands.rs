//! Commands that the daemon receives from Insight.
//!
//! Carrying out a command alternates work of the daemon and decisions. `CommandStep` says
//! what to do next, and `CommandStep::next` takes what came of it. Whoever carries out the
//! command does the work and hands back the outcome, until the step is
//! `CommandStep::Finished`.

use crate::command_runner::CommandRunner;
use vstd::prelude::*;

verus! {

/// How long the daemon runs before it starts to look for commands, in seconds.
pub const COMMAND_START_DELAY_SECONDS: u64 = 30;

/// How long it waits before each look, in seconds.
pub const COMMAND_CHECK_INTERVAL_SECONDS: u64 = 60;

/// A command from Insight.
#[derive(Clone, Debug, PartialEq, Eq)]
pub enum RemoteCommand {
    /// Log a message.
    Log(String),
    /// Let Insight control the topology, or not.
    SetInsightControlledTopology { enabled: bool },
    /// Set the role that Insight gives this node in the topology.
    SetInsightRole { role: String },
    /// Restart the daemon.
    RestartLqosd,
    /// Restart the scheduler.
    RestartScheduler,
}

/// What a command means for the rest of its batch.
#[derive(Clone, Copy, Debug, PartialEq, Eq, Structural)]
pub enum RemoteCommandAction {
    Continue,
    StopBatch,
}

/// The part of the configuration that commands change.
#[derive(Clone, Debug, PartialEq, Eq)]
pub struct InsightSettings {
    pub enable_insight_topology: Option<bool>,
    pub insight_topology_role: Option<String>,
}

/// A change of the configuration.
#[derive(Clone, Debug, PartialEq, Eq)]
pub enum ConfigChange {
    InsightTopology(bool),
    InsightRole(String),
}

/// What to do next for a command.
#[derive(Debug)]
pub enum CommandStep {
    /// Log this warning.
    Warn(String),
    /// Load the configuration; the change is for `UpdateConfig`.
    LoadConfig(ConfigChange),
    /// Apply the change to a copy of the configuration, and store it.
    UpdateConfig(ConfigChange),
    /// Log that the configuration could not be stored.
    ReportUpdateFailure(String),
    /// Enable the scheduler; the outcome does not matter.
    EnableScheduler,
    /// Restart the scheduler; the outcome does not matter.
    RestartScheduler,
    /// Ask for a graceful shutdown, for this reason.
    RequestShutdown(String),
    /// Log that the shutdown could not be asked for.
    ReportShutdownFailure(String),
    /// Nothing.
    Finished(RemoteCommandAction),
}

/// What came of a step: a success, or a failure with its text.
#[derive(Debug)]
pub enum CommandOutcome {
    Done,
    Failed(String),
}

/// The mathematical content of a `ConfigChange`.
#[verifier::ext_equal]
pub enum ConfigChangeView {
    InsightTopology(bool),
    InsightRole(Seq<char>),
}

/// The mathematical content of a `CommandStep`.
#[verifier::ext_equal]
pub enum CommandStepView {
    Warn(Seq<char>),
    LoadConfig(ConfigChangeView),
    UpdateConfig(ConfigChangeView),
    ReportUpdateFailure(Seq<char>),
    EnableScheduler,
    RestartScheduler,
    RequestShutdown(Seq<char>),
    ReportShutdownFailure(Seq<char>),
    Finished(RemoteCommandAction),
}

/// The mathematical content of a `CommandOutcome`.
#[verifier::ext_equal]
pub enum CommandOutcomeView {
    Done,
    Failed(Seq<char>),
}

impl View for ConfigChange {
    type V = ConfigChangeView;

    open spec fn view(&self) -> ConfigChangeView {
        match self {
            ConfigChange::InsightTopology(enabled) => ConfigChangeView::InsightTopology(*enabled),
            ConfigChange::InsightRole(role) => ConfigChangeView::InsightRole(role@),
        }
    }
}

impl View for CommandStep {
    type V = CommandStepView;

    open spec fn view(&self) -> CommandStepView {
        match self {
            CommandStep::Warn(message) => CommandStepView::Warn(message@),
            CommandStep::LoadConfig(change) => CommandStepView::LoadConfig(change@),
            CommandStep::UpdateConfig(change) => CommandStepView::UpdateConfig(change@),
            CommandStep::ReportUpdateFailure(message) => CommandStepView::ReportUpdateFailure(
                message@,
            ),
            CommandStep::EnableScheduler => CommandStepView::EnableScheduler,
            CommandStep::RestartScheduler => CommandStepView::RestartScheduler,
            CommandStep::RequestShutdown(reason) => CommandStepView::RequestShutdown(reason@),
            CommandStep::ReportShutdownFailure(message) => CommandStepView::ReportShutdownFailure(
                message@,
            ),
            CommandStep::Finished(action) => CommandStepView::Finished(*action),
        }
    }
}

impl View for CommandOutcome {
    type V = CommandOutcomeView;

    open spec fn view(&self) -> CommandOutcomeView {
        match self {
            CommandOutcome::Done => CommandOutcomeView::Done,
            CommandOutcome::Failed(message) => CommandOutcomeView::Failed(message@),
        }
    }
}

/// The first step of a command. Without permission nothing but a warning comes of it.
pub open spec fn first_step(command: RemoteCommand, permitted: bool) -> CommandStepView {
    if !permitted {
        CommandStepView::Warn(
            "Ignoring remote command because current license tier does not permit it"@,
        )
    } else {
        match command {
            RemoteCommand::Log(message) => CommandStepView::Warn(
                "Message from Insight: "@ + message@,
            ),
            RemoteCommand::SetInsightControlledTopology { enabled } => CommandStepView::LoadConfig(
                ConfigChangeView::InsightTopology(enabled),
            ),
            RemoteCommand::SetInsightRole { role } => CommandStepView::LoadConfig(
                ConfigChangeView::InsightRole(role@),
            ),
            RemoteCommand::RestartLqosd => CommandStepView::RequestShutdown(
                "Insight requested lqosd restart"@,
            ),
            RemoteCommand::RestartScheduler => CommandStepView::RestartScheduler,
        }
    }
}

impl CommandStepView {
    /// The step after this one had this outcome.
    pub open spec fn next_spec(self, outcome: CommandOutcomeView) -> CommandStepView {
        match self {
            CommandStepView::Warn(_) => CommandStepView::Finished(RemoteCommandAction::Continue),
            CommandStepView::LoadConfig(change) => match outcome {
                CommandOutcomeView::Done => CommandStepView::UpdateConfig(change),
                CommandOutcomeView::Failed(_) => CommandStepView::Finished(
                    RemoteCommandAction::Continue,
                ),
            },
            CommandStepView::UpdateConfig(_) => match outcome {
                CommandOutcomeView::Done => CommandStepView::EnableScheduler,
                CommandOutcomeView::Failed(e) => CommandStepView::ReportUpdateFailure(
                    "Failed to update config: "@ + e,
                ),
            },
            CommandStepView::ReportUpdateFailure(_) => CommandStepView::EnableScheduler,
            CommandStepView::EnableScheduler => CommandStepView::RestartScheduler,
            CommandStepView::RestartScheduler => CommandStepView::Finished(
                RemoteCommandAction::Continue,
            ),
            CommandStepView::RequestShutdown(_) => match outcome {
                CommandOutcomeView::Done => CommandStepView::Finished(
                    RemoteCommandAction::StopBatch,
                ),
                CommandOutcomeView::Failed(e) => CommandStepView::ReportShutdownFailure(
                    "Unable to request graceful lqosd restart: "@ + e,
                ),
            },
            CommandStepView::ReportShutdownFailure(_) => CommandStepView::Finished(
                RemoteCommandAction::StopBatch,
            ),
            CommandStepView::Finished(action) => CommandStepView::Finished(action),
        }
    }
}

/// `text` with a label before it.
fn labelled(label: &str, text: &str) -> (r: String)
    ensures
        r@ == label@ + text@,
{
    let mut r = label.to_owned();
    r.append(text);
    r
}

/// Starts to carry out a command.
pub fn run_command_with(command: RemoteCommand, can_receive_remote_commands: bool) -> (r:
    CommandStep)
    ensures
        r@ == first_step(command, can_receive_remote_commands),
{
    if !can_receive_remote_commands {
        return CommandStep::Warn(
            "Ignoring remote command because current license tier does not permit it".to_owned(),
        );
    }
    match command {
        RemoteCommand::Log(message) => CommandStep::Warn(
            labelled("Message from Insight: ", message.as_str()),
        ),
        RemoteCommand::SetInsightControlledTopology { enabled } => CommandStep::LoadConfig(
            ConfigChange::InsightTopology(enabled),
        ),
        RemoteCommand::SetInsightRole { role } => CommandStep::LoadConfig(
            ConfigChange::InsightRole(role),
        ),
        RemoteCommand::RestartLqosd => CommandStep::RequestShutdown(
            "Insight requested lqosd restart".to_owned(),
        ),
        RemoteCommand::RestartScheduler => CommandStep::RestartScheduler,
    }
}

impl CommandStep {
    /// Takes what came of this step and decides what is next.
    pub fn next(self, outcome: CommandOutcome) -> (r: Self)
        ensures
            r@ == self@.next_spec(outcome@),
    {
        match self {
            CommandStep::Warn(_) => CommandStep::Finished(RemoteCommandAction::Continue),
            CommandStep::LoadConfig(change) => match outcome {
                CommandOutcome::Done => CommandStep::UpdateConfig(change),
                CommandOutcome::Failed(_) => CommandStep::Finished(RemoteCommandAction::Continue),
            },
            CommandStep::UpdateConfig(_) => match outcome {
                CommandOutcome::Done => CommandStep::EnableScheduler,
                CommandOutcome::Failed(e) => CommandStep::ReportUpdateFailure(
                    labelled("Failed to update config: ", e.as_str()),
                ),
            },
            CommandStep::ReportUpdateFailure(_) => CommandStep::EnableScheduler,
            CommandStep::EnableScheduler => CommandStep::RestartScheduler,
            CommandStep::RestartScheduler => CommandStep::Finished(RemoteCommandAction::Continue),
            CommandStep::RequestShutdown(_) => match outcome {
                CommandOutcome::Done => CommandStep::Finished(RemoteCommandAction::StopBatch),
                CommandOutcome::Failed(e) => CommandStep::ReportShutdownFailure(
                    labelled("Unable to request graceful lqosd restart: ", e.as_str()),
                ),
            },
            CommandStep::ReportShutdownFailure(_) => CommandStep::Finished(
                RemoteCommandAction::StopBatch,
            ),
            CommandStep::Finished(action) => CommandStep::Finished(action),
        }
    }
}

impl ConfigChange {
    /// The settings with this change.
    pub fn apply(self, settings: InsightSettings) -> (r: InsightSettings)
        ensures
            match self {
                ConfigChange::InsightTopology(enabled) => r == (InsightSettings {
                    enable_insight_topology: Some(enabled),
                    ..settings
                }),
                ConfigChange::InsightRole(role) => r == (InsightSettings {
                    insight_topology_role: Some(role),
                    ..settings
                }),
            },
    {
        match self {
            ConfigChange::InsightTopology(enabled) => InsightSettings {
                enable_insight_topology: Some(enabled),
                insight_topology_role: settings.insight_topology_role,
            },
            ConfigChange::InsightRole(role) => InsightSettings {
                enable_insight_topology: settings.enable_insight_topology,
                insight_topology_role: Some(role),
            },
        }
    }
}

/// Whether `run` gave these actions for the first commands of a batch: each is an answer to
/// its command, all but the last say to continue, and commands are left over only if the
/// last says to stop.
pub open spec fn batch_trace<F: FnMut(RemoteCommand) -> RemoteCommandAction>(
    run: F,
    commands: Seq<RemoteCommand>,
    actions: Seq<RemoteCommandAction>,
) -> bool {
    &&& actions.len() <= commands.len()
    &&& forall|i: int|
        #![trigger actions[i]]
        0 <= i < actions.len() ==> call_ensures(run, (commands[i],), actions[i])
    &&& forall|i: int|
        0 <= i < actions.len() - 1 ==> #[trigger] actions[i] == RemoteCommandAction::Continue
    &&& actions.len() < commands.len() ==> actions.len() > 0 && actions.last()
        == RemoteCommandAction::StopBatch
}

/// Whether `ran` and `rest` are what became of a batch: the commands split into those that
/// were run and those that were left, after a command that stopped the batch if any were.
pub open spec fn batch_split<F: FnMut(RemoteCommand) -> RemoteCommandAction>(
    run: F,
    commands: Seq<RemoteCommand>,
    ran: Seq<RemoteCommand>,
    rest: Seq<RemoteCommand>,
) -> bool {
    exists|actions: Seq<RemoteCommandAction>|
        {
            &&& #[trigger] batch_trace(run, commands, actions)
            &&& ran == commands.take(actions.len() as int)
            &&& rest == commands.skip(actions.len() as int)
        }
}

/// Runs the commands of a batch in order, each once, up to the first that stops it. Returns
/// the commands after that one, which are not run, and the runner with its record of those
/// that were.
pub fn process_remote_command_batch<F: FnMut(RemoteCommand) -> RemoteCommandAction>(
    commands: Vec<RemoteCommand>,
    run: F,
) -> (r: (Vec<RemoteCommand>, CommandRunner<F>))
    requires
        forall|i: int| 0 <= i < commands.len() ==> call_requires(run, (#[trigger] commands[i],)),
    ensures
        r.1.closure() == run,
        batch_split(run, commands@, r.1.ran(), r.0@),
{
    run_until_stopped(commands, CommandRunner::new(run))
}

/// Runs the commands of a batch with a runner that has run nothing yet.
fn run_until_stopped<F: FnMut(RemoteCommand) -> RemoteCommandAction>(
    commands: Vec<RemoteCommand>,
    runner: CommandRunner<F>,
) -> (r: (Vec<RemoteCommand>, CommandRunner<F>))
    requires
        runner.ran() == Seq::<RemoteCommand>::empty(),
        forall|i: int|
            0 <= i < commands.len() ==> call_requires(
                runner.closure(),
                (#[trigger] commands[i],),
            ),
    ensures
        r.1.closure() == runner.closure(),
        batch_split(runner.closure(), commands@, r.1.ran(), r.0@),
{
    let ghost run = runner.closure();
    let mut current = runner;
    let mut rest = commands;
    let ghost mut actions: Seq<RemoteCommandAction> = Seq::empty();
    assert(commands@.skip(0) == commands@);
    while rest.len() > 0
        invariant
            run == runner.closure(),
            current.closure() == run,
            actions.len() <= commands.len(),
            current.ran() == commands@.take(actions.len() as int),
            rest@ == commands@.skip(actions.len() as int),
            forall|i: int|
                0 <= i < commands.len() ==> call_requires(run, (#[trigger] commands[i],)),
            forall|i: int|
                #![trigger actions[i]]
                0 <= i < actions.len() ==> call_ensures(run, (commands@[i],), actions[i]),
            forall|i: int|
                0 <= i < actions.len() ==> #[trigger] actions[i] == RemoteCommandAction::Continue,
        decreases rest.len(),
    {
        let ghost n = actions.len() as int;
        let command = rest.remove(0);
        assert(command == commands@[n]);
        assert(rest@ == commands@.skip(n + 1));
        let (called, action) = current.call(command);
        current = called;
        assert(current.ran() == commands@.take(n + 1));
        proof {
            actions = actions.push(action);
        }
        if action == RemoteCommandAction::StopBatch {
            assert(batch_trace(run, commands@, actions));
            return (rest, current);
        }
    }
    assert(batch_trace(run, commands@, actions));
    (rest, current)
}

/// Where the first restart of the daemon stands, or the number of commands if there is none.
pub open spec fn first_restart(commands: Seq<RemoteCommand>) -> nat
    decreases commands.len(),
{
    if commands.len() == 0 || commands.first() is RestartLqosd {
        0
    } else {
        1 + first_restart(commands.drop_first())
    }
}

proof fn lemma_first_restart(commands: Seq<RemoteCommand>)
    ensures
        first_restart(commands) <= commands.len(),
        forall|i: int| 0 <= i < first_restart(commands) ==> !(#[trigger] commands[i] is RestartLqosd),
        first_restart(commands) < commands.len() ==> commands[first_restart(commands) as int]
            is RestartLqosd,
    decreases commands.len(),
{
    if commands.len() > 0 && !(commands.first() is RestartLqosd) {
        let rest = commands.drop_first();
        lemma_first_restart(rest);
        assert forall|i: int| 0 <= i < first_restart(commands) implies !(
        #[trigger] commands[i] is RestartLqosd) by {
            if i > 0 {
                assert(commands[i] == rest[i - 1]);
            }
        }
    }
}

/// If exactly the restarts of the daemon stop a batch, then the commands that are run are
/// those up to the first restart, and that restart; those after it are left.
pub proof fn batch_ends_with_first_restart<F: FnMut(RemoteCommand) -> RemoteCommandAction>(
    runner: CommandRunner<F>,
    commands: Seq<RemoteCommand>,
    rest: Seq<RemoteCommand>,
)
    requires
        batch_split(runner.closure(), commands, runner.ran(), rest),
        forall|command: RemoteCommand, action: RemoteCommandAction|
            call_ensures(runner.closure(), (command,), action) ==> (action
                == RemoteCommandAction::StopBatch <==> command is RestartLqosd),
    ensures
        ({
            let n = if first_restart(commands) < commands.len() {
                first_restart(commands) + 1
            } else {
                commands.len()
            };
            &&& runner.ran() == commands.take(n as int)
            &&& rest == commands.skip(n as int)
        }),
{
    lemma_first_restart(commands);
    let run = runner.closure();
    let actions = choose|actions: Seq<RemoteCommandAction>|
        {
            &&& #[trigger] batch_trace(run, commands, actions)
            &&& runner.ran() == commands.take(actions.len() as int)
            &&& rest == commands.skip(actions.len() as int)
        };
    let n = first_restart(commands) as int;
    if actions.len() <= n && actions.len() < commands.len() {
        assert(actions[actions.len() - 1] == RemoteCommandAction::StopBatch);
        assert(commands[actions.len() - 1] is RestartLqosd);
    }
    if actions.len() > n + 1 {
        assert(actions[n] == RemoteCommandAction::Continue);
    }
}

/// The step after these outcomes.
pub open spec fn carried_out(
    start: CommandStepView,
    outcomes: Seq<CommandOutcomeView>,
) -> CommandStepView
    decreases outcomes.len(),
{
    if outcomes.len() == 0 {
        start
    } else {
        carried_out(start, outcomes.drop_last()).next_spec(outcomes.last())
    }
}

/// Without permission a command does nothing but log a warning, and the batch goes on.
pub proof fn command_without_permission_has_no_effect(
    command: RemoteCommand,
    outcomes: Seq<CommandOutcomeView>,
)
    ensures
        carried_out(first_step(command, false), outcomes) == if outcomes.len() == 0 {
            first_step(command, false)
        } else {
            CommandStepView::Finished(RemoteCommandAction::Continue)
        },
        first_step(command, false) is Warn,
    decreases outcomes.len(),
{
    if outcomes.len() > 0 {
        command_without_permission_has_no_effect(command, outcomes.drop_last());
    }
}

/// Only a permitted restart of the daemon stops the batch, and it does so whether or not the
/// shutdown could be asked for.
pub proof fn only_a_restart_stops_the_batch(
    command: RemoteCommand,
    permitted: bool,
    outcomes: Seq<CommandOutcomeView>,
)
    ensures
        carried_out(first_step(command, permitted), outcomes) matches CommandStepView::Finished(
            action,
        ) ==> (action == RemoteCommandAction::StopBatch <==> permitted && command is RestartLqosd),
{
    lemma_steps_of_restart(command, permitted, outcomes);
}

proof fn lemma_steps_of_restart(
    command: RemoteCommand,
    permitted: bool,
    outcomes: Seq<CommandOutcomeView>,
)
    ensures
        ({
            let step = carried_out(first_step(command, permitted), outcomes);
            let stops = step is RequestShutdown || step is ReportShutdownFailure || step
                == CommandStepView::Finished(RemoteCommandAction::StopBatch);
            stops <==> permitted && command is RestartLqosd
        }),
    decreases outcomes.len(),
{
    if outcomes.len() > 0 {
        lemma_steps_of_restart(command, permitted, outcomes.drop_last());
    }
}

/// A command is finished after at most five steps.
pub proof fn command_is_finished_after_five_steps(
    command: RemoteCommand,
    permitted: bool,
    outcomes: Seq<CommandOutcomeView>,
)
    requires
        outcomes.len() >= 5,
    ensures
        carried_out(first_step(command, permitted), outcomes) is Finished,
    decreases outcomes.len(),
{
    if outcomes.len() > 5 {
        command_is_finished_after_five_steps(command, permitted, outcomes.drop_last());
    } else {
        let o4 = outcomes.drop_last();
        let o3 = o4.drop_last();
        let o2 = o3.drop_last();
        let o1 = o2.drop_last();
        let o0 = o1.drop_last();
        reveal_with_fuel(carried_out, 6);
        assert(carried_out(first_step(command, permitted), o0) == first_step(command, permitted));
    }
}

/// Once the configuration is loaded for a change, the scheduler is enabled and restarted, also
/// if the change could not be stored.
pub proof fn configuration_change_restarts_scheduler(
    change: ConfigChangeView,
    update: CommandOutcomeView,
    other: CommandOutcomeView,
)
    ensures
        ({
            let updated = CommandStepView::LoadConfig(change).next_spec(
                CommandOutcomeView::Done,
            ).next_spec(update);
            let enabling = if update is Done {
                updated
            } else {
                updated.next_spec(other)
            };
            &&& update is Failed ==> updated is ReportUpdateFailure
            &&& enabling == CommandStepView::EnableScheduler
            &&& enabling.next_spec(other) == CommandStepView::RestartScheduler
            &&& enabling.next_spec(other).next_spec(other) == CommandStepView::Finished(
                RemoteCommandAction::Continue,
            )
        }),
{
}

} // verus!
