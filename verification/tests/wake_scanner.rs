use rakka_agent::identity::{
    AgentGoalId, AgentIdentityError, AgentRevisionNumber, AgentTaskId, AgentTimestampMillis,
    TenantId,
};
use rakka_agent::wake::{
    AgentWakeBinding, AgentWakeOccurrence, AgentWakeTriggerKind, ScheduleRevision,
};
use rakka_agent::wake_scanner::{
    check_local_owner, conclude_delivery, wake_admission_command, AgentExchangeDeliveryError, AgentTaskEntityCommand,
    AgentTaskEntityReply, AgentTaskScope, AgentWakeScanError, AgentWakeScanOutcome,
    AgentWakeScanPass, AgentWakeScannerSettings, AgentWakeTimerEntry, AgentWakeTimerError,
    AgentWakeTimerStatus, METRIC_AGENT_WAKES,
};
use rakka_agent::wake_state::{AgentWakeDisposition, AgentWakeOutcome};

fn at(millis: u64) -> AgentTimestampMillis {
    AgentTimestampMillis::new(millis)
}

fn binding(due_at: u64) -> AgentWakeBinding {
    AgentWakeBinding::new(
        TenantId::new("acme"),
        AgentGoalId::new("goal-1").expect("the goal id is valid"),
        ScheduleRevision::initial(),
        AgentWakeOccurrence::Scheduled { due_at: at(due_at) },
        AgentWakeTriggerKind::DurableTimer,
        at(due_at),
        AgentRevisionNumber::initial(),
    )
    .expect("the binding is valid")
}

fn entry(task: &str, due_at: u64) -> AgentWakeTimerEntry {
    AgentWakeTimerEntry {
        task: AgentTaskId::new(task).expect("the task id is valid"),
        binding: binding(due_at),
    }
}

fn admitted(due_at: u64) -> AgentTaskEntityReply {
    AgentTaskEntityReply::Applied {
        wake: Some(AgentWakeOutcome::Disposition(
            AgentWakeDisposition::Admitted {
                wake: binding(due_at).wake_id().clone(),
            },
        )),
    }
}

fn unreachable_task() -> AgentExchangeDeliveryError {
    AgentExchangeDeliveryError {
        code: "shard-unavailable".to_string(),
        message: "no owner".to_string(),
    }
}

#[test]
fn a_pass_delivers_in_due_order() {
    let mut pass = AgentWakeScanPass::begin(
        at(100),
        2,
        vec![entry("task-a", 10), entry("task-b", 20)],
        AgentWakeScannerSettings::default(),
    );
    for (task, due_at) in [("task-a", 10), ("task-b", 20)] {
        let (scope, command) = pass
            .next_delivery()
            .expect("the entry derives")
            .expect("an entry is left");
        assert_eq!(scope.task.as_str(), task);
        match command {
            AgentTaskEntityCommand::AdmitWake {
                operation_id,
                binding: bound,
            } => {
                assert_eq!(bound.wake_id().as_str(), binding(due_at).wake_id().as_str());
                assert_eq!(
                    operation_id.as_str(),
                    bound
                        .admission_operation_id()
                        .expect("it derives")
                        .as_str()
                );
            }
            other => panic!("an admission, got {other:?}"),
        }
        let (wake, status) = pass
            .conclude(Ok(admitted(due_at)))
            .expect("the entry earned its status");
        assert_eq!(wake.as_str(), binding(due_at).wake_id().as_str());
        assert_eq!(status, AgentWakeTimerStatus::Fired);
    }
    assert!(pass.next_delivery().expect("nothing is left").is_none());
    let scan = pass.finish();
    assert_eq!(scan.outcomes.len(), 2);
    assert_eq!(scan.scanned_at, at(100));
    assert_eq!(scan.max_batch_size, 32);
    assert!(!scan.backpressure_limited);
}

#[test]
fn a_failure_holds_back_its_own_task_only() {
    let mut pass = AgentWakeScanPass::begin(
        at(100),
        5,
        vec![
            entry("task-a", 10),
            entry("task-a", 20),
            entry("task-b", 30),
            entry("task-a", 40),
        ],
        AgentWakeScannerSettings::new(4),
    );
    let (scope, _) = pass
        .next_delivery()
        .expect("the entry derives")
        .expect("an entry is left");
    assert_eq!(scope.task.as_str(), "task-a");
    assert!(pass.conclude(Err(unreachable_task())).is_none());
    let (scope, _) = pass
        .next_delivery()
        .expect("the entry derives")
        .expect("the other task is delivered");
    assert_eq!(scope.task.as_str(), "task-b");
    pass.conclude(Ok(admitted(30))).expect("it fired");
    assert!(pass.next_delivery().expect("nothing is left").is_none());
    let scan = pass.finish();
    assert!(scan.backpressure_limited);
    let labels: Vec<&str> = scan
        .outcomes
        .iter()
        .map(|outcome| outcome.metric_label())
        .collect();
    assert_eq!(
        labels,
        vec!["delivery-failed", "held-back", "admitted", "held-back"]
    );
    match &scan.outcomes[1] {
        AgentWakeScanOutcome::HeldBack { wake, blocked_by } => {
            assert_eq!(wake.as_str(), binding(20).wake_id().as_str());
            assert_eq!(blocked_by.as_str(), binding(10).wake_id().as_str());
        }
        other => panic!("held back, got {other:?}"),
    }
    assert!(scan.outcomes[0].is_blocking());
    assert!(!scan.outcomes[1].is_blocking());
}

#[test]
fn a_pass_over_nothing_does_nothing() {
    let mut pass = AgentWakeScanPass::begin(
        at(100),
        0,
        Vec::new(),
        AgentWakeScannerSettings::default(),
    );
    assert!(pass.next_delivery().expect("nothing is due").is_none());
    let scan = pass.finish();
    assert!(scan.outcomes.is_empty());
    assert!(!scan.backpressure_limited);
}

#[test]
fn each_reply_has_its_conclusion() {
    let bound = binding(10);
    let wake = bound.wake_id();
    match conclude_delivery(
        wake,
        Ok(AgentTaskEntityReply::Rejected {
            code: "wake-revision-ahead".to_string(),
            message: "ahead".to_string(),
        }),
    ) {
        AgentWakeScanOutcome::Rejected { code, .. } => assert_eq!(code, "wake-revision-ahead"),
        other => panic!("rejected, got {other:?}"),
    }
    for reply in [
        AgentTaskEntityReply::Snapshot,
        AgentTaskEntityReply::Progressed,
    ] {
        match conclude_delivery(wake, Ok(reply)) {
            AgentWakeScanOutcome::Rejected { code, .. } => {
                assert_eq!(code, "wake-unexpected-reply");
            }
            other => panic!("rejected, got {other:?}"),
        }
    }
    match conclude_delivery(
        wake,
        Ok(AgentTaskEntityReply::Applied {
            wake: Some(AgentWakeOutcome::Disposition(
                AgentWakeDisposition::Fenced {
                    wake: wake.clone(),
                    offered: ScheduleRevision::new(1),
                    current: ScheduleRevision::new(2),
                },
            )),
        }),
    ) {
        AgentWakeScanOutcome::Dispositioned {
            marked, redelivery, ..
        } => {
            assert_eq!(marked, AgentWakeTimerStatus::Fenced);
            assert!(!redelivery);
        }
        other => panic!("dispositioned, got {other:?}"),
    }
    // A redelivery whose record is gone is a duplicate.
    match conclude_delivery(wake, Ok(AgentTaskEntityReply::Duplicate { wake: None })) {
        AgentWakeScanOutcome::Dispositioned {
            disposition,
            redelivery,
            marked,
            ..
        } => {
            assert!(redelivery);
            assert_eq!(marked, AgentWakeTimerStatus::Fired);
            assert!(matches!(
                disposition,
                AgentWakeDisposition::Duplicate { .. }
            ));
        }
        other => panic!("dispositioned, got {other:?}"),
    }
}

#[test]
fn a_scan_error_names_its_layer() {
    let timers = AgentWakeScanError::Timers(AgentWakeTimerError {
        code: "timer-store-unavailable",
        message: "down".to_string(),
    });
    assert_eq!(timers.code(), "timer-store-unavailable");
    assert_eq!(timers.message(), "down");
    let identity = AgentWakeScanError::Identity(AgentIdentityError::Empty);
    assert_eq!(identity.code(), AgentIdentityError::Empty.code());
    assert!(AgentTaskScope::new(
        TenantId::new(""),
        AgentTaskId::new("task-a").expect("the task id is valid")
    )
    .is_err());
    assert!(wake_admission_command(binding(10)).is_ok());
    check_local_owner("task-a", "node-b", true).expect("the owner is local");
    let error = check_local_owner("task-a", "node-b", false).expect_err("the owner is not");
    assert_eq!(error.code, "wake-remote-owner");
    assert_eq!(
        error.message,
        "task task-a is owned by node-b; its owner's scanner delivers it"
    );
    assert_eq!(AgentWakeScannerSettings::new(0).max_batch_size(), 1);
    assert_eq!(METRIC_AGENT_WAKES, "rakka.agent.wakes");
}
