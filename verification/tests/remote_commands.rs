use lqos_control::remote_commands::{
    process_remote_command_batch, run_command_with, CommandOutcome, CommandStep, ConfigChange,
    InsightSettings, RemoteCommand, RemoteCommandAction, COMMAND_CHECK_INTERVAL_SECONDS,
    COMMAND_START_DELAY_SECONDS,
};
use std::sync::atomic::{AtomicBool, Ordering};
use std::sync::Arc;

#[test]
fn remote_command_batch_stops_after_restart_request() {
    let commands = vec![
        RemoteCommand::Log("before".to_string()),
        RemoteCommand::RestartLqosd,
        RemoteCommand::Log("after".to_string()),
    ];
    let mut processed = Vec::new();

    process_remote_command_batch(commands, |command| {
        processed.push(command.clone());
        match command {
            RemoteCommand::RestartLqosd => RemoteCommandAction::StopBatch,
            _ => RemoteCommandAction::Continue,
        }
    });

    assert_eq!(
        processed,
        vec![
            RemoteCommand::Log("before".to_string()),
            RemoteCommand::RestartLqosd,
        ]
    );
}

#[test]
fn remote_command_batch_continues_without_restart_request() {
    let commands = vec![
        RemoteCommand::Log("first".to_string()),
        RemoteCommand::RestartScheduler,
        RemoteCommand::Log("last".to_string()),
    ];
    let mut processed = Vec::new();

    process_remote_command_batch(commands.clone(), |command| {
        processed.push(command);
        RemoteCommandAction::Continue
    });

    assert_eq!(processed, commands);
}

/// Carries out a command whose only outside work is a request for shutdown.
fn carry_out(
    command: RemoteCommand,
    permitted: bool,
    mut request_shutdown: impl FnMut(&str) -> Result<(), String>,
) -> RemoteCommandAction {
    let mut step = run_command_with(command, permitted);
    loop {
        let outcome = match &step {
            CommandStep::Finished(action) => return *action,
            CommandStep::RequestShutdown(reason) => match request_shutdown(reason) {
                Ok(()) => CommandOutcome::Done,
                Err(e) => CommandOutcome::Failed(e),
            },
            _ => CommandOutcome::Done,
        };
        step = step.next(outcome);
    }
}

#[test]
fn restart_lqosd_requests_shutdown_and_stops_batch() {
    let called = Arc::new(AtomicBool::new(false));
    let called_by_shutdown = called.clone();

    let action = carry_out(RemoteCommand::RestartLqosd, true, |reason| {
        assert_eq!(reason, "Insight requested lqosd restart");
        called_by_shutdown.store(true, Ordering::SeqCst);
        Ok(())
    });

    assert_eq!(action, RemoteCommandAction::StopBatch);
    assert!(called.load(Ordering::SeqCst));
}

#[test]
fn restart_lqosd_does_not_shutdown_without_remote_command_capability() {
    let called = Arc::new(AtomicBool::new(false));
    let called_by_shutdown = called.clone();

    let action = carry_out(RemoteCommand::RestartLqosd, false, |_| {
        called_by_shutdown.store(true, Ordering::SeqCst);
        Ok(())
    });

    assert_eq!(action, RemoteCommandAction::Continue);
    assert!(!called.load(Ordering::SeqCst));
}

/// The steps of a command, each answered by `answer`.
fn steps(
    command: RemoteCommand,
    permitted: bool,
    answer: impl Fn(&CommandStep) -> CommandOutcome,
) -> Vec<String> {
    let mut step = run_command_with(command, permitted);
    let mut seen = vec![format!("{step:?}")];
    while !matches!(step, CommandStep::Finished(_)) {
        let outcome = answer(&step);
        step = step.next(outcome);
        seen.push(format!("{step:?}"));
    }
    seen
}

#[test]
fn commands_without_permission_only_warn() {
    for command in [
        RemoteCommand::Log("m".to_string()),
        RemoteCommand::SetInsightControlledTopology { enabled: true },
        RemoteCommand::SetInsightRole {
            role: "r".to_string(),
        },
        RemoteCommand::RestartLqosd,
        RemoteCommand::RestartScheduler,
    ] {
        assert_eq!(
            steps(command, false, |_| CommandOutcome::Done),
            vec![
                "Warn(\"Ignoring remote command because current license tier does not permit it\")",
                "Finished(Continue)",
            ]
        );
    }
}

#[test]
fn messages_are_logged() {
    assert_eq!(
        steps(RemoteCommand::Log("hello".to_string()), true, |_| {
            CommandOutcome::Done
        }),
        vec!["Warn(\"Message from Insight: hello\")", "Finished(Continue)"]
    );
}

#[test]
fn topology_change_is_stored_and_restarts_the_scheduler() {
    let command = RemoteCommand::SetInsightControlledTopology { enabled: true };
    assert_eq!(
        steps(command, true, |_| CommandOutcome::Done),
        vec![
            "LoadConfig(InsightTopology(true))",
            "UpdateConfig(InsightTopology(true))",
            "EnableScheduler",
            "RestartScheduler",
            "Finished(Continue)",
        ]
    );
}

#[test]
fn failed_update_is_logged_and_restarts_the_scheduler() {
    let command = RemoteCommand::SetInsightRole {
        role: "core".to_string(),
    };
    assert_eq!(
        steps(command, true, |step| match step {
            CommandStep::UpdateConfig(_) => CommandOutcome::Failed("disk full".to_string()),
            _ => CommandOutcome::Done,
        }),
        vec![
            "LoadConfig(InsightRole(\"core\"))",
            "UpdateConfig(InsightRole(\"core\"))",
            "ReportUpdateFailure(\"Failed to update config: disk full\")",
            "EnableScheduler",
            "RestartScheduler",
            "Finished(Continue)",
        ]
    );
}

#[test]
fn configuration_that_cannot_be_loaded_is_left_alone() {
    let command = RemoteCommand::SetInsightControlledTopology { enabled: false };
    assert_eq!(
        steps(command, true, |_| CommandOutcome::Failed("gone".to_string())),
        vec!["LoadConfig(InsightTopology(false))", "Finished(Continue)"]
    );
}

#[test]
fn failed_shutdown_is_logged_and_stops_the_batch() {
    assert_eq!(
        steps(RemoteCommand::RestartLqosd, true, |_| {
            CommandOutcome::Failed("busy".to_string())
        }),
        vec![
            "RequestShutdown(\"Insight requested lqosd restart\")",
            "ReportShutdownFailure(\"Unable to request graceful lqosd restart: busy\")",
            "Finished(StopBatch)",
        ]
    );
}

#[test]
fn restart_of_the_scheduler_does_not_enable_it() {
    assert_eq!(
        steps(RemoteCommand::RestartScheduler, true, |_| {
            CommandOutcome::Done
        }),
        vec!["RestartScheduler", "Finished(Continue)"]
    );
}

#[test]
fn changes_touch_one_setting() {
    let settings = InsightSettings {
        enable_insight_topology: None,
        insight_topology_role: Some("edge".to_string()),
    };
    let settings = ConfigChange::InsightTopology(false).apply(settings);
    assert_eq!(
        settings,
        InsightSettings {
            enable_insight_topology: Some(false),
            insight_topology_role: Some("edge".to_string()),
        }
    );
    let settings = ConfigChange::InsightRole("core".to_string()).apply(settings);
    assert_eq!(
        settings,
        InsightSettings {
            enable_insight_topology: Some(false),
            insight_topology_role: Some("core".to_string()),
        }
    );
}

#[test]
fn waits_between_looks_for_commands() {
    assert_eq!(COMMAND_START_DELAY_SECONDS, 30);
    assert_eq!(COMMAND_CHECK_INTERVAL_SECONDS, 60);
}

#[test]
fn batch_of_real_commands_ends_with_the_first_restart() {
    let commands = vec![
        RemoteCommand::Log("one".to_string()),
        RemoteCommand::RestartScheduler,
        RemoteCommand::RestartLqosd,
        RemoteCommand::RestartLqosd,
    ];
    let mut run = Vec::new();
    let (rest, _) = process_remote_command_batch(commands, |command| {
        run.push(command.clone());
        carry_out(command, true, |_| Ok(()))
    });
    assert_eq!(
        run,
        vec![
            RemoteCommand::Log("one".to_string()),
            RemoteCommand::RestartScheduler,
            RemoteCommand::RestartLqosd,
        ]
    );
    assert_eq!(rest, vec![RemoteCommand::RestartLqosd]);
    let (rest, _) = process_remote_command_batch(Vec::new(), |_| RemoteCommandAction::StopBatch);
    assert!(rest.is_empty());
}
