use rakka_agent::collections::{IdMap, IdSet};
use rakka_agent::exchange::{
    AgentEntityAddress, AgentExchangeDecodeError, AgentExchangeKind, AgentExchangeResult,
    AgentTeamScope,
};
use rakka_agent::identity::{
    AgentGoalId, AgentId, AgentOperationId, AgentRevisionNumber, AgentRevisionProvenance,
    AgentRunId, AgentTaskId, AgentTeamId, AgentTimestampMillis, PrincipalRef, TenantId,
};
use rakka_agent::team::{
    check_bounds, team_claim_id_for, AgentTeamClaimAction, AgentTeamOwedExchange,
    AgentTeamRecordKind, AgentTeamSchemaError, AgentTeamSchemaPolicy, AgentTeamState,
    AGENT_TEAM_MATERIALIZED_MAX_BYTES, AGENT_TEAM_OPERATION_LOG_CAPACITY,
    AGENT_TEAM_STATE_GROWTH_RESERVE_BYTES, CURRENT_AGENT_TEAM_STATE_SCHEMA_VERSION,
};
use rakka_agent::team_board::{
    AgentTeamBoardEntry, AgentTeamBoardEntryStatus, AgentTeamCreation, AgentTeamPolicy,
    AgentTeamStatus,
};
use rakka_agent::team_entity::{
    AgentTeamCommandAnswer, AgentTeamEntityCommand, AgentTeamEntityReply, AgentTeamStep,
};
use rakka_agent::team_error::AgentTeamError;
use rakka_agent::team_history::{
    bounded_detail, AgentTeamHistoryCursor, AgentTeamHistoryEntry, AgentTeamHistoryKind,
    AgentTeamHistorySequence, InMemoryAgentTeamHistoryStore, AGENT_TEAM_DETAIL_MAX_LENGTH,
    AGENT_TEAM_HISTORY_DEFAULT_PAGE_SIZE, AGENT_TEAM_HISTORY_MAX_PAGE_SIZE,
};
use rakka_agent::team_journal::{
    conclude_command, AgentTeamEntity, AgentTeamExchangeJournal, AGENT_TEAM_EXCHANGE_WINDOW,
};
use rakka_agent::team_settle::{
    read_claim_refusal, AgentTeamClaimOutcome, AgentTeamClaimResultNotice, AgentTeamExchange,
    AgentTeamParticipant, AgentTeamTerminalNotice,
};
use rakka_agent::wake_scanner::AgentTaskScope;

fn scope() -> AgentTeamScope {
    AgentTeamScope::new(
        TenantId::new("acme"),
        AgentTeamId::new("triage").expect("the team id is valid"),
    )
    .expect("the scope is valid")
}

fn agent(name: &str) -> AgentId {
    AgentId::new(name).expect("the agent id is valid")
}

fn task(name: &str) -> AgentTaskId {
    AgentTaskId::new(name).expect("the task id is valid")
}

fn operation(name: &str) -> AgentOperationId {
    AgentOperationId::new(name).expect("the operation id is valid")
}

fn at(millis: u64) -> AgentTimestampMillis {
    AgentTimestampMillis::new(millis)
}

fn provenance() -> AgentRevisionProvenance {
    AgentRevisionProvenance {
        principal: PrincipalRef {
            principal_type: "service".to_string(),
            principal_id: "control-plane".to_string(),
            display_name: None,
        },
        accepted_at: at(1),
        causation_id: "cause-1".to_string(),
        audit_ref: "audit-1".to_string(),
    }
}

fn policy() -> AgentTeamPolicy {
    AgentTeamPolicy {
        revision: AgentRevisionNumber::initial(),
        max_members: 3,
        max_board_entries: 2,
        max_messages: 2,
        max_message_bytes: 16,
        claim_lease_ms: 1_000,
        expires_after_ms: None,
    }
}

fn creation(policy: AgentTeamPolicy, members: &[&str]) -> AgentTeamCreation {
    let mut listed = IdMap::new();
    for member in members {
        listed.insert(agent(member), IdSet::new());
    }
    AgentTeamCreation {
        leader: agent("lead"),
        root_goal: AgentGoalId::new("goal-1").expect("the goal id is valid"),
        policy,
        members: listed,
    }
}

fn run(
    state: &mut AgentTeamState,
    command: AgentTeamEntityCommand,
    millis: u64,
) -> Result<AgentTeamStep, AgentTeamError> {
    state.apply_transition(command, at(millis))
}

fn created(policy: AgentTeamPolicy) -> AgentTeamState {
    let mut state = AgentTeamState::uncreated(scope(), at(1));
    run(
        &mut state,
        AgentTeamEntityCommand::Create {
            operation_id: operation("create"),
            creation: creation(policy, &["ada"]),
        },
        10,
    )
    .expect("the team is created");
    state
}

fn posted() -> AgentTeamState {
    let mut state = created(policy());
    run(
        &mut state,
        AgentTeamEntityCommand::PostTask {
            operation_id: operation("post-1"),
            task: task("task-1"),
            posted_by: agent("lead"),
        },
        20,
    )
    .expect("the task is posted");
    state
}

fn claim_command(name: &str, member: &str, epoch: u64) -> AgentTeamEntityCommand {
    AgentTeamEntityCommand::Claim {
        operation_id: operation(name),
        task: task("task-1"),
        member: agent(member),
        expected_epoch: epoch,
    }
}

fn claimed() -> (AgentTeamState, AgentTeamOwedExchange) {
    let mut state = posted();
    let step = run(&mut state, claim_command("claim-1", "ada", 0), 100).expect("the claim stands");
    let owed = step.owed.expect("a claim owes an exchange");
    (state, owed)
}

fn entry(state: &AgentTeamState) -> &AgentTeamBoardEntry {
    state
        .team()
        .expect("the team exists")
        .board()
        .get(&task("task-1"))
        .expect("the task is posted")
}

fn task_scope() -> AgentTaskScope {
    AgentTaskScope::new(TenantId::new("acme"), task("task-1")).expect("the scope is valid")
}

fn task_address() -> AgentEntityAddress {
    AgentEntityAddress::Task(task_scope())
}

fn refused(code: &str) -> AgentExchangeResult {
    AgentExchangeResult::rejected(code.to_string(), "no".to_string(), "type", String::new())
}

fn decode_error() -> AgentExchangeDecodeError {
    AgentExchangeDecodeError {
        code: "payload-type-mismatch".to_string(),
        message: "another payload".to_string(),
    }
}

#[test]
fn a_created_team_holds_its_leader() {
    let state = created(policy());
    let team = state.team().expect("the team exists");
    assert_eq!(team.status, AgentTeamStatus::Active);
    assert_eq!(team.members().len(), 2);
    assert!(team.is_member(&agent("lead")));
    assert!(team.is_member(&agent("ada")));
    assert!(team.expires_at.is_none());
    assert_eq!(state.pending_history().len(), 1);
    let history = &state.pending_history()[0];
    assert_eq!(history.kind, AgentTeamHistoryKind::Created);
    assert_eq!(history.detail, "members=2");
    assert_eq!(history.sequence.get(), 1);
    assert_eq!(state.updated_at(), at(10));
    let error = {
        let mut again = created(policy());
        run(
            &mut again,
            AgentTeamEntityCommand::Create {
                operation_id: operation("create-again"),
                creation: creation(policy(), &[]),
            },
            11,
        )
        .expect_err("a team is created once")
    };
    assert_eq!(error.code(), "team-already-created");
}

#[test]
fn a_creation_beyond_its_members_is_refused() {
    let mut state = AgentTeamState::uncreated(scope(), at(1));
    let error = run(
        &mut state,
        AgentTeamEntityCommand::Create {
            operation_id: operation("create"),
            creation: creation(policy(), &["a", "b", "c"]),
        },
        10,
    )
    .expect_err("four members exceed three");
    assert_eq!(error.code(), "team-members-exhausted");
    assert!(!state.is_created());
    let error = run(&mut state, claim_command("claim", "ada", 0), 11)
        .expect_err("there is no team to claim from");
    assert_eq!(error.code(), "team-not-found");
}

#[test]
fn membership_is_fenced_by_the_lifecycle_revision() {
    let mut state = created(policy());
    let join = |name: &str, member: &str, expected: AgentRevisionNumber| {
        AgentTeamEntityCommand::AddMember {
            operation_id: operation(name),
            member: agent(member),
            capability_scopes: IdSet::new(),
            expected_lifecycle_revision: expected,
            provenance: provenance(),
        }
    };
    let initial = AgentRevisionNumber::initial();
    let stale = run(&mut state, join("join-0", "bob", initial.next()), 20)
        .expect_err("the revision is not in force");
    assert_eq!(stale.code(), "team-stale-lifecycle-revision");
    let joined = run(&mut state, join("join-1", "bob", initial), 21).expect("bob joins");
    assert_eq!(joined.outcome.members, 3);
    assert_eq!(joined.outcome.lifecycle_revision, initial.next());
    assert!(joined.measure);
    let replay = run(&mut state, join("join-1b", "carol", initial), 22)
        .expect_err("the revision is spent");
    assert_eq!(replay.code(), "team-stale-lifecycle-revision");
    let twice = run(&mut state, join("join-2", "bob", initial.next()), 23).expect_err("a member");
    assert_eq!(twice.code(), "team-already-member");
    let full = run(&mut state, join("join-3", "carol", initial.next()), 24).expect_err("full");
    assert_eq!(full.code(), "team-members-exhausted");

    let leave = |name: &str, member: &str| AgentTeamEntityCommand::RemoveMember {
        operation_id: operation(name),
        member: agent(member),
        expected_lifecycle_revision: initial.next(),
        provenance: provenance(),
    };
    let stranger = run(&mut state, leave("leave-0", "zoe"), 25).expect_err("no member");
    assert_eq!(stranger.code(), "team-not-member");
    let leader = run(&mut state, leave("leave-1", "lead"), 26).expect_err("the leader stays");
    assert_eq!(leader.code(), "team-leader-immovable");
    let left = run(&mut state, leave("leave-2", "bob"), 27).expect("bob leaves");
    assert_eq!(left.outcome.members, 2);
    assert!(!left.measure);
}

#[test]
fn a_board_is_bounded_and_evicts_what_is_done() {
    let mut state = posted();
    let post = |name: &str, posted_task: &str, by: &str| AgentTeamEntityCommand::PostTask {
        operation_id: operation(name),
        task: task(posted_task),
        posted_by: agent(by),
    };
    let again = run(&mut state, post("post-1b", "task-1", "lead"), 21).expect_err("it is posted");
    assert_eq!(again.code(), "team-task-already-posted");
    let stranger = run(&mut state, post("post-0", "task-9", "zoe"), 22).expect_err("no member");
    assert_eq!(stranger.code(), "team-not-member");
    run(&mut state, post("post-2", "task-2", "ada"), 23).expect("the second task is posted");
    let full = run(&mut state, post("post-3", "task-3", "ada"), 24).expect_err("full");
    assert_eq!(full.code(), "team-board-exhausted");

    // A closed entry makes room.
    let answer = state.apply_team_terminal(
        &operation("terminal-1"),
        Ok(AgentTeamTerminalNotice {
            task: task_scope(),
            terminal_reason: "completed".to_string(),
        }),
        &task_address(),
        at(25),
    );
    assert!(answer.is_accepted());
    let step = run(&mut state, post("post-4", "task-3", "ada"), 26).expect("there is room");
    assert_eq!(step.outcome.board_entries, 2);
    assert!(state
        .team()
        .expect("the team exists")
        .board()
        .get(&task("task-1"))
        .is_none());
}

#[test]
fn a_claim_owes_its_task_an_exchange() {
    let (state, owed) = claimed();
    let entry = entry(&state);
    assert_eq!(entry.status, AgentTeamBoardEntryStatus::Pending);
    assert_eq!(entry.claim_epoch, 1);
    let claim = entry.claim.as_ref().expect("the claim is recorded");
    assert_eq!(claim.member.as_str(), "ada");
    assert_eq!(claim.lease_expires_at, at(1_100));
    assert_eq!(owed.command.epoch, 1);
    assert_eq!(owed.command.claim.as_str(), claim.claim.as_str());
    assert_eq!(owed.target.task.as_str(), "task-1");
    assert!(matches!(
        owed.command.action,
        AgentTeamClaimAction::Claim { ref member } if member.as_str() == "ada"
    ));
    assert_eq!(
        claim.claim.as_str(),
        team_claim_id_for(&scope(), &task("task-1"), &agent("ada"), 1).as_str()
    );
    assert_eq!(claim.claim.as_str().len(), "claim-".len() + 64);
    assert_ne!(
        claim.claim.as_str(),
        team_claim_id_for(&scope(), &task("task-1"), &agent("ada"), 2).as_str()
    );
}

#[test]
fn a_claim_is_refused_until_its_lease_lapses() {
    let (mut state, _) = claimed();
    let stale = run(&mut state, claim_command("claim-2", "lead", 0), 200).expect_err("observed 0");
    assert_eq!(stale.code(), "team-claim-stale-epoch");
    let held = run(&mut state, claim_command("claim-3", "lead", 1), 1_099).expect_err("leased");
    assert_eq!(held.code(), "team-claim-not-stealable");
    let stranger = run(&mut state, claim_command("claim-4", "zoe", 1), 1_100).expect_err("no");
    assert_eq!(stranger.code(), "team-not-member");
    let stolen = run(&mut state, claim_command("claim-5", "lead", 1), 1_100).expect("it lapsed");
    let entry = stolen.outcome.entry.expect("the entry is touched");
    assert_eq!(entry.claim_epoch, 2);
    assert_eq!(
        entry.claim.as_ref().map(|claim| claim.member.as_str()),
        Some("lead")
    );
    assert_eq!(
        state.pending_history().last().expect("recorded").detail,
        "steal"
    );
    let unposted = run(
        &mut state,
        AgentTeamEntityCommand::Claim {
            operation_id: operation("claim-6"),
            task: task("task-9"),
            member: agent("ada"),
            expected_epoch: 0,
        },
        1_200,
    )
    .expect_err("never posted");
    assert_eq!(unposted.code(), "team-task-not-posted");
}

#[test]
fn a_release_is_for_the_holder_or_the_leader() {
    let release = |name: &str, member: &str, epoch: u64| AgentTeamEntityCommand::Release {
        operation_id: operation(name),
        task: task("task-1"),
        member: agent(member),
        expected_epoch: epoch,
    };
    let mut state = posted();
    let open = run(&mut state, release("release-0", "ada", 0), 30).expect_err("nothing is held");
    assert_eq!(open.code(), "team-board-entry-busy");

    let (mut state, _) = claimed();
    run(
        &mut state,
        AgentTeamEntityCommand::AddMember {
            operation_id: operation("join"),
            member: agent("bob"),
            capability_scopes: IdSet::new(),
            expected_lifecycle_revision: AgentRevisionNumber::initial(),
            provenance: provenance(),
        },
        110,
    )
    .expect("bob joins");
    let other = run(&mut state, release("release-1", "bob", 1), 120).expect_err("not the holder");
    assert_eq!(other.code(), "team-release-not-holder");
    let step = run(&mut state, release("release-2", "lead", 1), 130).expect("the leader may");
    let owed = step.owed.expect("a release owes an exchange");
    assert!(matches!(owed.command.action, AgentTeamClaimAction::Release));
    assert_eq!(entry(&state).status, AgentTeamBoardEntryStatus::Releasing);
    let busy =
        run(&mut state, claim_command("claim-2", "bob", 2), 140).expect_err("it is releasing");
    assert_eq!(busy.code(), "team-board-entry-busy");
    let pending = run(
        &mut state,
        AgentTeamEntityCommand::RemoveMember {
            operation_id: operation("leave"),
            member: agent("ada"),
            expected_lifecycle_revision: AgentRevisionNumber::new(2),
            provenance: provenance(),
        },
        145,
    )
    .expect_err("ada's claim is unresolved");
    assert_eq!(pending.code(), "team-member-claim-pending");

    // The task lets the claim go.
    let accepted = AgentExchangeResult::accepted("type", String::new());
    state.settle_claim_action(&operation("settle"), &owed.command, &accepted, at(150));
    assert_eq!(entry(&state).status, AgentTeamBoardEntryStatus::Open);
    assert!(entry(&state).claim.is_none());
    assert_eq!(entry(&state).last_code.as_deref(), Some("released"));
}

#[test]
fn a_transfer_supersedes_the_claim() {
    let (mut state, first) = claimed();
    let transfer = |name: &str, member: &str, target: &str, epoch: u64| {
        AgentTeamEntityCommand::Transfer {
            operation_id: operation(name),
            task: task("task-1"),
            member: agent(member),
            target: agent(target),
            expected_epoch: epoch,
        }
    };
    let stranger = run(&mut state, transfer("transfer-0", "ada", "zoe", 1), 110)
        .expect_err("the target is no member");
    assert_eq!(stranger.code(), "team-not-member");
    let step = run(&mut state, transfer("transfer-1", "ada", "lead", 1), 120).expect("it moves");
    assert_eq!(entry(&state).claim_epoch, 2);
    assert_eq!(
        entry(&state)
            .claim
            .as_ref()
            .map(|claim| claim.member.as_str()),
        Some("lead")
    );
    let second = step.owed.expect("a transfer owes an exchange");
    assert_eq!(second.command.epoch, 2);

    // The reply to the superseded decision changes nothing.
    let before = format!("{state:?}");
    state.settle_claim_action(
        &operation("settle"),
        &first.command,
        &refused("team-claim-task-terminal"),
        at(130),
    );
    assert_eq!(format!("{state:?}"), before);

    // The task honored the superseded claim: its activation still fills the
    // entry.
    let answer = state.apply_claim_result(
        &operation("result"),
        Ok(AgentTeamClaimResultNotice {
            task: task_scope(),
            claim: first.command.claim,
            outcome: AgentTeamClaimOutcome::Activated {
                generation: 3,
                run: AgentRunId::new("run-3").expect("the run id is valid"),
                member: agent("ada"),
            },
        }),
        &task_address(),
        at(140),
    );
    assert!(answer.is_accepted());
    assert_eq!(entry(&state).status, AgentTeamBoardEntryStatus::Active);
    let claim = entry(&state).claim.as_ref().expect("the owner is echoed");
    assert_eq!(claim.member.as_str(), "ada");
    assert_eq!(claim.generation_echo, Some(3));
    let owned = run(&mut state, claim_command("claim-2", "lead", 2), 150).expect_err("owned");
    assert_eq!(owned.code(), "team-claim-already-owned");
}

#[test]
fn a_claim_result_settles_its_claim() {
    let (mut state, owed) = claimed();
    let notice = |outcome: AgentTeamClaimOutcome| {
        Ok(AgentTeamClaimResultNotice {
            task: task_scope(),
            claim: owed.command.claim.clone(),
            outcome,
        })
    };
    let refusal = || AgentTeamClaimOutcome::Refused {
        code: "agent-unavailable".to_string(),
    };
    let forged = state.apply_claim_result(
        &operation("result-0"),
        notice(refusal()),
        &AgentEntityAddress::Team(scope()),
        at(200),
    );
    assert_eq!(forged.rejection_code(), Some("team-claim-forged"));
    let undecodable = state.apply_claim_result(
        &operation("result-1"),
        Err(decode_error()),
        &task_address(),
        at(201),
    );
    assert_eq!(undecodable.rejection_code(), Some("payload-type-mismatch"));
    let settled = state.apply_claim_result(
        &operation("result-2"),
        notice(refusal()),
        &task_address(),
        at(202),
    );
    assert!(settled.is_accepted());
    assert_eq!(entry(&state).status, AgentTeamBoardEntryStatus::Open);
    assert_eq!(entry(&state).last_code.as_deref(), Some("agent-unavailable"));
    assert_eq!(refusal().operation_label(), "reopened");

    let mut empty = created(policy());
    let unknown = empty.apply_claim_result(
        &operation("result-3"),
        notice(refusal()),
        &task_address(),
        at(203),
    );
    assert_eq!(unknown.rejection_code(), Some("team-claim-unknown"));
    let mut uncreated = AgentTeamState::uncreated(scope(), at(1));
    let nobody = uncreated.apply_claim_result(
        &operation("result-4"),
        notice(refusal()),
        &task_address(),
        at(204),
    );
    assert_eq!(nobody.rejection_code(), Some("team-not-found"));
}

#[test]
fn each_refusal_of_a_claim_has_its_consequence() {
    let cases = [
        (
            "team-claim-already-owned",
            AgentTeamBoardEntryStatus::Active,
            false,
        ),
        (
            "team-claim-assignment-inflight",
            AgentTeamBoardEntryStatus::Open,
            false,
        ),
        (
            "team-claim-task-terminal",
            AgentTeamBoardEntryStatus::Done,
            false,
        ),
        (
            "team-claim-task-unknown",
            AgentTeamBoardEntryStatus::Done,
            false,
        ),
        (
            "team-claim-wrong-team",
            AgentTeamBoardEntryStatus::Done,
            false,
        ),
        (
            "team-claim-task-cancelling",
            AgentTeamBoardEntryStatus::Open,
            false,
        ),
        (
            "team-claim-handoff-pending",
            AgentTeamBoardEntryStatus::Open,
            false,
        ),
        (
            "team-claim-limit-exceeded",
            AgentTeamBoardEntryStatus::Open,
            false,
        ),
        (
            "task-state-too-large",
            AgentTeamBoardEntryStatus::Open,
            false,
        ),
        (
            "team-claim-stale-epoch",
            AgentTeamBoardEntryStatus::Pending,
            true,
        ),
        (
            "team-release-unknown",
            AgentTeamBoardEntryStatus::Pending,
            true,
        ),
        ("something-else", AgentTeamBoardEntryStatus::Pending, true),
    ];
    for (code, status, keeps_claim) in cases {
        let (mut state, owed) = claimed();
        state.settle_claim_action(
            &operation("settle"),
            &owed.command,
            &refused(code),
            at(300),
        );
        assert_eq!(entry(&state).status, status, "after {code}");
        assert_eq!(entry(&state).claim.is_some(), keeps_claim, "after {code}");
    }
}

#[test]
fn each_refusal_of_a_release_has_its_consequence() {
    let cases = [
        (
            "team-claim-already-owned",
            AgentTeamBoardEntryStatus::Active,
        ),
        (
            "team-release-assignment-inflight",
            AgentTeamBoardEntryStatus::Pending,
        ),
        ("team-release-unknown", AgentTeamBoardEntryStatus::Pending),
        (
            "team-claim-assignment-inflight",
            AgentTeamBoardEntryStatus::Releasing,
        ),
    ];
    for (code, status) in cases {
        let (mut state, _) = claimed();
        let step = run(
            &mut state,
            AgentTeamEntityCommand::Release {
                operation_id: operation("release"),
                task: task("task-1"),
                member: agent("ada"),
                expected_epoch: 1,
            },
            120,
        )
        .expect("the holder releases");
        let owed = step.owed.expect("a release owes an exchange");
        state.settle_claim_action(
            &operation("settle"),
            &owed.command,
            &refused(code),
            at(300),
        );
        assert_eq!(entry(&state).status, status, "after {code}");
        assert!(entry(&state).claim.is_some(), "after {code}");
    }
}

#[test]
fn a_terminal_notice_closes_for_good() {
    let (mut state, owed) = claimed();
    let notice = || {
        Ok(AgentTeamTerminalNotice {
            task: task_scope(),
            terminal_reason: "failed".to_string(),
        })
    };
    let forged = state.apply_team_terminal(
        &operation("terminal-0"),
        notice(),
        &AgentEntityAddress::Team(scope()),
        at(400),
    );
    assert_eq!(
        forged.rejection_code(),
        Some("team-terminal-notice-forged")
    );
    let undecodable = state.apply_team_terminal(
        &operation("terminal-1"),
        Err(decode_error()),
        &task_address(),
        at(401),
    );
    assert_eq!(
        undecodable.rejection_code(),
        Some("team-terminal-notice-undecodable")
    );
    let closed =
        state.apply_team_terminal(&operation("terminal-2"), notice(), &task_address(), at(402));
    assert!(closed.is_accepted());
    assert_eq!(entry(&state).status, AgentTeamBoardEntryStatus::Done);
    assert_eq!(entry(&state).claim_epoch, 2);
    assert_eq!(entry(&state).last_code.as_deref(), Some("failed"));

    // Closing again, and every stale reply, changes nothing.
    let before = format!("{state:?}");
    assert!(state
        .apply_team_terminal(&operation("terminal-3"), notice(), &task_address(), at(403))
        .is_accepted());
    state.settle_claim_action(
        &operation("settle"),
        &owed.command,
        &refused("team-claim-already-owned"),
        at(404),
    );
    assert_eq!(format!("{state:?}"), before);
    let done = run(&mut state, claim_command("claim-2", "ada", 2), 405).expect_err("it is done");
    assert_eq!(done.code(), "team-board-entry-done");

    let mut uncreated = AgentTeamState::uncreated(scope(), at(1));
    let nobody = uncreated.apply_team_terminal(
        &operation("terminal-4"),
        notice(),
        &task_address(),
        at(406),
    );
    assert_eq!(nobody.rejection_code(), Some("team-not-found"));
}

#[test]
fn the_message_ring_counts_what_it_drops() {
    let mut state = created(policy());
    let say = |name: &str, from: &str, to: Option<&str>, body: &str| {
        AgentTeamEntityCommand::AppendMessage {
            operation_id: operation(name),
            from: agent(from),
            to: to.map(agent),
            body: body.to_string(),
        }
    };
    let stranger =
        run(&mut state, say("say-0", "zoe", None, "hi"), 30).expect_err("the sender is no member");
    assert_eq!(stranger.code(), "team-not-member");
    let nobody = run(&mut state, say("say-1", "ada", Some("zoe"), "hi"), 31)
        .expect_err("the addressee is no member");
    assert_eq!(nobody.code(), "team-not-member");
    let long = run(&mut state, say("say-2", "ada", None, &"x".repeat(17)), 32)
        .expect_err("the body is too large");
    assert_eq!(long.code(), "team-message-too-large");
    for index in 0..3 {
        run(
            &mut state,
            say(&format!("say-ok-{index}"), "ada", Some("lead"), "hello"),
            40 + index,
        )
        .expect("the message is appended");
    }
    let team = state.team().expect("the team exists");
    assert_eq!(team.messages().len(), 2);
    assert_eq!(team.messages_dropped, 1);
    assert_eq!(team.messages()[0].sequence, 2);
    assert_eq!(team.messages()[1].sequence, 3);
}

#[test]
fn a_disband_waits_for_its_claims() {
    let disband = |name: &str, expected: AgentRevisionNumber| AgentTeamEntityCommand::Disband {
        operation_id: operation(name),
        expected_lifecycle_revision: expected,
        provenance: provenance(),
        reason: "finished".to_string(),
    };
    let (mut state, _) = claimed();
    let pending = run(
        &mut state,
        disband("disband-0", AgentRevisionNumber::initial()),
        200,
    )
    .expect_err("a claim is unresolved");
    assert_eq!(pending.code(), "team-disband-claim-pending");

    let mut state = posted();
    let stale = run(&mut state, disband("disband-1", AgentRevisionNumber::new(9)), 200)
        .expect_err("the revision is not in force");
    assert_eq!(stale.code(), "team-stale-lifecycle-revision");
    let step = run(
        &mut state,
        disband("disband-2", AgentRevisionNumber::initial()),
        201,
    )
    .expect("the team disbands");
    assert_eq!(step.outcome.status, AgentTeamStatus::Disbanded);
    let gone = run(&mut state, claim_command("claim", "ada", 0), 202).expect_err("disbanded");
    assert_eq!(gone.code(), "team-disbanded");
}

#[test]
fn a_passed_horizon_expires_the_team() {
    let mut state = created(AgentTeamPolicy {
        expires_after_ms: Some(100),
        ..policy()
    });
    assert_eq!(
        state.team().expect("the team exists").expires_at,
        Some(at(110))
    );
    assert!(!state.observe_expiry(at(109)).expect("not yet"));
    let early = run(&mut state, claim_command("claim", "ada", 0), 110).expect_err("passed");
    assert_eq!(early.code(), "team-expired");
    assert!(state.observe_expiry(at(110)).expect("it expires"));
    assert!(!state.observe_expiry(at(111)).expect("only once"));
    assert_eq!(
        state.team().expect("the team exists").status,
        AgentTeamStatus::Expired
    );
    assert_eq!(
        state.pending_history().last().expect("recorded").kind,
        AgentTeamHistoryKind::Expired
    );
}

#[test]
fn a_resolved_operation_is_answered_from_the_log() {
    let (state, _) = claimed();
    match state
        .answer_known(&claim_command("claim-1", "lead", 7))
        .expect("the operation is known")
    {
        AgentTeamEntityReply::Duplicate { outcome } => {
            let entry = outcome.entry.expect("the entry is recorded");
            assert_eq!(entry.claim_epoch, 1);
        }
        other => panic!("a duplicate, got {other:?}"),
    }
    assert!(state
        .answer_known(&claim_command("claim-2", "ada", 0))
        .is_none());
    match state
        .answer_known(&AgentTeamEntityCommand::Describe)
        .expect("a read is always answered")
    {
        AgentTeamEntityReply::Snapshot(Some(snapshot)) => {
            assert_eq!(snapshot.board.len(), 1);
            assert_eq!(snapshot.members.len(), 2);
            assert_eq!(snapshot.history_entries, 3);
            assert_eq!(snapshot.owed_history, 3);
        }
        other => panic!("a snapshot, got {other:?}"),
    }
    assert!(matches!(
        AgentTeamState::uncreated(scope(), at(1)).answer_known(&AgentTeamEntityCommand::Describe),
        Some(AgentTeamEntityReply::Snapshot(None))
    ));
    assert_eq!(state.applied_operations().len(), 3);
    assert_eq!(
        claim_command("claim-1", "ada", 0).operation_label(),
        "claim"
    );
    match AgentTeamEntityReply::rejected(&AgentTeamError::Disbanded) {
        AgentTeamEntityReply::Rejected { code, .. } => assert_eq!(code, "team-disbanded"),
        other => panic!("a rejection, got {other:?}"),
    }
}

#[test]
fn the_operation_log_forgets_its_oldest() {
    let mut state = created(policy());
    for index in 0..AGENT_TEAM_OPERATION_LOG_CAPACITY {
        let mut history = InMemoryAgentTeamHistoryStore::new();
        state.flush_history(&mut history).expect("it flushes");
        run(
            &mut state,
            AgentTeamEntityCommand::AppendMessage {
                operation_id: operation(&format!("say-{index}")),
                from: agent("ada"),
                to: None,
                body: "hello".to_string(),
            },
            50,
        )
        .expect("the message is appended");
    }
    assert_eq!(
        state.applied_operations().len(),
        AGENT_TEAM_OPERATION_LOG_CAPACITY
    );
    assert!(state
        .applied_operations()
        .outcome(&operation("create"))
        .is_none());
    assert!(state
        .applied_operations()
        .outcome(&operation("say-0"))
        .is_some());
}

fn disband_command(name: &str) -> AgentTeamEntityCommand {
    AgentTeamEntityCommand::Disband {
        operation_id: operation(name),
        expected_lifecycle_revision: AgentRevisionNumber::initial(),
        provenance: provenance(),
        reason: "finished".to_string(),
    }
}

#[test]
fn a_replayed_command_changes_nothing_even_after_the_disbanding() {
    let mut state = posted();
    let post = || AgentTeamEntityCommand::PostTask {
        operation_id: operation("post-2"),
        task: task("task-2"),
        posted_by: agent("lead"),
    };
    let first = match state.apply_command(post(), at(30)).expect("it is posted") {
        AgentTeamCommandAnswer::Stepped { step } => step.outcome,
        other => panic!("a step, got {other:?}"),
    };
    // One command fewer than the log has places follows, the last a disbanding.
    for index in 0..AGENT_TEAM_OPERATION_LOG_CAPACITY - 2 {
        let mut history = InMemoryAgentTeamHistoryStore::new();
        state.flush_history(&mut history).expect("it flushes");
        state
            .apply_command(
                AgentTeamEntityCommand::AppendMessage {
                    operation_id: operation(&format!("say-{index}")),
                    from: agent("ada"),
                    to: None,
                    body: "hello".to_string(),
                },
                at(50),
            )
            .expect("the message is appended");
    }
    state
        .apply_command(disband_command("disband"), at(60))
        .expect("the team disbands");
    let before = format!("{state:?}");
    match state.apply_command(post(), at(70)).expect("the replay is answered") {
        AgentTeamCommandAnswer::Known {
            reply: AgentTeamEntityReply::Duplicate { outcome },
        } => assert_eq!(format!("{outcome:?}"), format!("{first:?}")),
        other => panic!("a duplicate, got {other:?}"),
    }
    assert_eq!(format!("{state:?}"), before);
    match state
        .apply_command(AgentTeamEntityCommand::Describe, at(71))
        .expect("a read is answered")
    {
        AgentTeamCommandAnswer::Known {
            reply: AgentTeamEntityReply::Snapshot(Some(snapshot)),
        } => assert_eq!(snapshot.status, AgentTeamStatus::Disbanded),
        other => panic!("a snapshot, got {other:?}"),
    }
    let gone = state
        .apply_command(claim_command("claim", "ada", 0), at(72))
        .expect_err("the team is disbanded");
    assert_eq!(gone.code(), "team-disbanded");
    assert_eq!(format!("{state:?}"), before);
}

fn entity() -> AgentTeamEntity {
    AgentTeamEntity {
        state: posted(),
        journal: AgentTeamExchangeJournal::new(),
    }
}

#[test]
fn an_owed_exchange_is_kept_until_it_is_settled() {
    let mut entity = entity();
    let reply = entity
        .apply_command(claim_command("claim-1", "ada", 0), at(100))
        .expect("the claim stands");
    assert!(matches!(reply.reply, AgentTeamEntityReply::Applied { .. }));
    assert_eq!(entity.journal.owed.len(), 1);
    let owed = entity.journal.owed[0].operation_id.clone();

    // A replay owes nothing more.
    let replay = entity
        .apply_command(claim_command("claim-1", "ada", 0), at(101))
        .expect("the replay is answered");
    assert!(matches!(replay.reply, AgentTeamEntityReply::Duplicate { .. }));
    assert!(!replay.measure);
    assert_eq!(entity.journal.owed.len(), 1);

    // An answer that is not for good leaves it owed.
    let unsettled = entity
        .settle(&owed, &refused("overloaded"), at(102))
        .expect_err("the refusal is not definitive");
    assert_eq!(unsettled.code, "overloaded");
    assert_eq!(entity.journal.owed.len(), 1);

    // An acceptance settles it, once.
    let accepted = AgentExchangeResult::accepted("type", String::new());
    assert!(entity.settle(&owed, &accepted, at(103)).expect("it settles"));
    assert!(entity.journal.owed.is_empty());
    assert!(!entity.settle(&owed, &accepted, at(104)).expect("nothing is owed"));
}

#[test]
fn a_repeated_delivery_is_answered_from_the_journal() {
    let mut entity = entity();
    let notice = || {
        AgentTeamExchange::TerminalNotice(Ok(AgentTeamTerminalNotice {
            task: task_scope(),
            terminal_reason: "cancelled".to_string(),
        }))
    };
    let first = entity.accept(&operation("notice-1"), notice(), &task_address(), at(200));
    assert!(first.answer.is_accepted());
    assert!(!first.replayed);
    assert_eq!(entry(&entity.state).status, AgentTeamBoardEntryStatus::Done);
    assert_eq!(entry(&entity.state).last_code.as_deref(), Some("cancelled"));
    let before = format!("{entity:?}");
    let again = entity.accept(&operation("notice-1"), notice(), &task_address(), at(201));
    assert!(again.answer.is_accepted());
    assert!(again.replayed);
    assert_eq!(format!("{entity:?}"), before);

    // Another delivery under the remembered operation is not looked at either.
    let other = entity.accept(
        &operation("notice-1"),
        AgentTeamExchange::Other(AgentExchangeKind::Creation),
        &task_address(),
        at(202),
    );
    assert!(other.answer.is_accepted() && other.replayed);

    // A delivery refused for good is remembered as refused; the oldest go beyond
    // the window.
    for index in 0..AGENT_TEAM_EXCHANGE_WINDOW {
        let answer = entity.accept(
            &operation(&format!("other-{index}")),
            AgentTeamExchange::Other(AgentExchangeKind::Creation),
            &task_address(),
            at(203),
        );
        assert_eq!(answer.answer.rejection_code(), Some("unsupported-exchange"));
    }
    assert_eq!(entity.journal.answered.len(), AGENT_TEAM_EXCHANGE_WINDOW);
    assert!(entity.journal.answer(&operation("notice-1")).is_none());
    assert!(entity.journal.answer(&operation("other-0")).is_some());
}

#[test]
fn an_undecodable_notice_is_received_anew() {
    let mut entity = entity();
    let before = format!("{entity:?}");
    let first = entity.accept(
        &operation("notice-1"),
        AgentTeamExchange::TerminalNotice(Err(decode_error())),
        &task_address(),
        at(200),
    );
    assert_eq!(
        first.answer.rejection_code(),
        Some("team-terminal-notice-undecodable")
    );
    assert_eq!(format!("{entity:?}"), before);

    // The same delivery, once it can be decoded, closes the entry.
    let second = entity.accept(
        &operation("notice-1"),
        AgentTeamExchange::TerminalNotice(Ok(AgentTeamTerminalNotice {
            task: task_scope(),
            terminal_reason: "cancelled".to_string(),
        })),
        &task_address(),
        at(201),
    );
    assert!(second.answer.is_accepted() && !second.replayed);
    assert_eq!(entry(&entity.state).status, AgentTeamBoardEntryStatus::Done);
    assert_eq!(entity.journal.answered.len(), 1);

    // A claim delivered to a team is no more remembered; a forged notice and an
    // undecodable claim result are.
    for (name, exchange, remembered) in [
        (
            "claim",
            AgentTeamExchange::Other(AgentExchangeKind::TeamClaim),
            false,
        ),
        (
            "result",
            AgentTeamExchange::ClaimResult(Err(decode_error())),
            true,
        ),
        (
            "forged",
            AgentTeamExchange::TerminalNotice(Ok(AgentTeamTerminalNotice {
                task: AgentTaskScope::new(TenantId::new("acme"), task("task-9"))
                    .expect("the scope is valid"),
                terminal_reason: "done".to_string(),
            })),
            true,
        ),
    ] {
        let answer = entity.accept(&operation(name), exchange, &task_address(), at(202));
        assert!(!answer.answer.is_accepted());
        assert_eq!(
            entity.journal.answer(&operation(name)).is_some(),
            remembered,
            "{name}"
        );
    }
}

#[test]
fn an_oversized_command_is_refused_without_a_trace() {
    let say = || AgentTeamEntityCommand::AppendMessage {
        operation_id: operation("say"),
        from: agent("ada"),
        to: None,
        body: "hello".to_string(),
    };
    let maximum = AGENT_TEAM_MATERIALIZED_MAX_BYTES - AGENT_TEAM_STATE_GROWTH_RESERVE_BYTES;
    for (bytes, fits) in [(maximum, true), (maximum + 1, false)] {
        let mut after = entity();
        let reply = after.apply_command(say(), at(50)).expect("it is appended");
        assert!(reply.measure);
        let (concluded, result) = conclude_command(entity(), after, reply, bytes);
        assert_eq!(result.is_ok(), fits);
        assert_eq!(
            concluded.state.answer_known(&say()).is_some(),
            fits,
            "a refused command is not taken for resolved"
        );
        if let Err(error) = result {
            assert_eq!(error.code(), "team-state-too-large");
            assert_eq!(format!("{concluded:?}"), format!("{:?}", entity()));
        }
    }

    // A command that grows nothing is not measured.
    let mut after = entity();
    let reply = after
        .apply_command(claim_command("claim-1", "ada", 0), at(60))
        .expect("the claim stands");
    let (concluded, result) = conclude_command(entity(), after, reply, maximum + 1);
    assert!(matches!(result, Ok(AgentTeamEntityReply::Applied { .. })));
    assert_eq!(concluded.journal.owed.len(), 1);
}

#[test]
fn a_state_of_another_schema_is_refused() {
    let current = AgentTeamSchemaPolicy::current();
    let mut state = posted();
    state.check_schema(&current).expect("it is current");
    state.pending_history[1].schema_version = 9;
    assert_eq!(
        state.check_schema(&current),
        Err(AgentTeamSchemaError {
            kind: AgentTeamRecordKind::History,
            version: 9,
        })
    );
    state
        .check_schema(&AgentTeamSchemaPolicy {
            states: vec![CURRENT_AGENT_TEAM_STATE_SCHEMA_VERSION],
            histories: vec![1, 9],
        })
        .expect("both versions are accepted");
    state.schema_version = 7;
    assert_eq!(
        state.check_schema(&current),
        Err(AgentTeamSchemaError {
            kind: AgentTeamRecordKind::State,
            version: 7,
        })
    );
}

#[test]
fn a_reply_after_the_terminal_notice_is_absorbed() {
    let (mut state, owed) = claimed();
    let epoch = owed.command.epoch;
    let closed = state.apply_team_terminal(
        &operation("notice"),
        Ok(AgentTeamTerminalNotice {
            task: task_scope(),
            terminal_reason: "cancelled".to_string(),
        }),
        &task_address(),
        at(200),
    );
    assert!(closed.is_accepted());
    let before = format!("{state:?}");
    for answer in [
        AgentExchangeResult::accepted("type", String::new()),
        refused("task-terminal"),
    ] {
        state.settle_claim_action(&owed.operation_id, &owed.command, &answer, at(210));
        assert_eq!(format!("{state:?}"), before);
    }
    assert_eq!(entry(&state).status, AgentTeamBoardEntryStatus::Done);
    assert!(entry(&state).claim.is_none());
    assert_eq!(entry(&state).claim_epoch, epoch + 1);
    assert_eq!(entry(&state).last_code.as_deref(), Some("cancelled"));
}

#[test]
fn a_claim_needs_room_in_its_own_entry_alone() {
    let mut state = posted();
    run(
        &mut state,
        AgentTeamEntityCommand::PostTask {
            operation_id: operation("post-2"),
            task: task("task-2"),
            posted_by: agent("lead"),
        },
        30,
    )
    .expect("the task is posted");
    if let Some(team) = &mut state.team {
        let mut worn = team
            .board
            .get(&task("task-2"))
            .expect("the task is posted")
            .clone();
        worn.claim_epoch = u64::MAX;
        team.board.insert(task("task-2"), worn);
    }
    run(&mut state, claim_command("claim-1", "ada", 0), 100).expect("the claim stands");
}

#[test]
fn a_history_backlog_refuses_more() {
    let mut state = created(policy());
    state.require_history_headroom().expect("there is room");
    for index in 0..28 {
        run(
            &mut state,
            AgentTeamEntityCommand::AppendMessage {
                operation_id: operation(&format!("say-{index}")),
                from: agent("ada"),
                to: None,
                body: "hello".to_string(),
            },
            50,
        )
        .expect("the message is appended");
    }
    assert_eq!(state.history_headroom(), 3);
    let error = state
        .require_history_headroom()
        .expect_err("the backlog is full");
    assert_eq!(error.code(), "team-history-backlog");
    assert!(error.is_domain_refusal() || !error.message().is_empty());
    let mut history = InMemoryAgentTeamHistoryStore::new();
    assert_eq!(state.flush_history(&mut history).expect("it flushes"), 29);
    assert_eq!(history.len(&scope()), 29);
    state.require_history_headroom().expect("there is room");
    assert_eq!(state.flush_history(&mut history).expect("nothing is owed"), 0);
}

#[test]
fn a_conflicting_flush_keeps_what_is_owed() {
    let mut state = posted();
    let mut history = InMemoryAgentTeamHistoryStore::new();
    history
        .append(
            &scope(),
            AgentTeamHistoryEntry::new(
                AgentTeamHistorySequence::new(2),
                AgentTeamHistoryKind::Disbanded,
                operation("elsewhere"),
                at(1),
            ),
        )
        .expect("the entry is appended");
    let error = state
        .flush_history(&mut history)
        .expect_err("another entry holds the sequence");
    assert_eq!(error.code(), "team-history-conflict");
    assert_eq!(state.pending_history().len(), 2);
}

#[test]
fn a_flush_after_a_crash_repeats_nothing() {
    // The entries reached the store, and the team died before it forgot them.
    let mut state = posted();
    let mut history = InMemoryAgentTeamHistoryStore::new();
    for entry in state.pending_history() {
        history
            .append(&scope(), entry.clone())
            .expect("the entry is appended");
    }
    assert_eq!(history.len(&scope()), 2);
    assert_eq!(state.flush_history(&mut history).expect("it flushes"), 2);
    assert_eq!(history.len(&scope()), 2);
    assert!(state.pending_history().is_empty());
}

fn logged(count: u64) -> InMemoryAgentTeamHistoryStore {
    let mut history = InMemoryAgentTeamHistoryStore::new();
    fill(&mut history, count);
    history
}

fn fill(history: &mut InMemoryAgentTeamHistoryStore, count: u64) {
    for number in 1..=count {
        history
            .append(
                &scope(),
                AgentTeamHistoryEntry::new(
                    AgentTeamHistorySequence::new(number),
                    AgentTeamHistoryKind::MessageAppended,
                    operation(&format!("operation-{number}")),
                    at(number),
                ),
            )
            .expect("the entry is appended");
    }
}

#[test]
fn a_history_is_read_in_bounded_pages() {
    let history = logged(20);
    let first = history
        .read(&scope(), AgentTeamHistoryCursor::start())
        .expect("the first page");
    assert_eq!(first.entries.len(), AGENT_TEAM_HISTORY_DEFAULT_PAGE_SIZE);
    assert!(first.has_more());
    let next = first.next.expect("more follows");
    assert_eq!(next.position().map(|sequence| sequence.get()), Some(16));
    let second = history.read(&scope(), next).expect("the second page");
    assert_eq!(second.entries.len(), 4);
    assert!(!second.has_more());

    // A current cursor reads an empty page; a cursor beyond it was never
    // issued.
    let current = AgentTeamHistoryCursor::after(AgentTeamHistorySequence::new(20));
    let empty = history.read(&scope(), current).expect("nothing is new");
    assert!(empty.entries.is_empty());
    let beyond = AgentTeamHistoryCursor::after(AgentTeamHistorySequence::new(21));
    let error = history.read(&scope(), beyond).expect_err("never issued");
    assert_eq!(error.code(), "team-history-window-expired");

    assert_eq!(
        AgentTeamHistoryCursor::default().with_limit(0).limit(),
        1
    );
    assert_eq!(
        AgentTeamHistoryCursor::start().with_limit(1_000).limit(),
        AGENT_TEAM_HISTORY_MAX_PAGE_SIZE
    );
    let resumed = AgentTeamHistoryCursor::start().resuming_at(AgentTeamHistorySequence::new(5));
    let page = history
        .read(&scope(), resumed.with_limit(2))
        .expect("the page");
    assert_eq!(page.entries[0].sequence.get(), 5);
    assert_eq!(page.entries.len(), 2);
    assert!(history
        .read(
            &AgentTeamScope::new(
                TenantId::new("acme"),
                AgentTeamId::new("other").expect("the team id is valid"),
            )
            .expect("the scope is valid"),
            AgentTeamHistoryCursor::start()
        )
        .expect("an empty log")
        .entries
        .is_empty());
    assert_eq!(history.backend_name(), "in-memory");
}

#[test]
fn the_last_sequence_of_all_ends_its_page() {
    let mut history = InMemoryAgentTeamHistoryStore::new();
    for number in [u64::MAX - 1, u64::MAX] {
        history
            .append(
                &scope(),
                AgentTeamHistoryEntry::new(
                    AgentTeamHistorySequence::new(number),
                    AgentTeamHistoryKind::MessageAppended,
                    operation("operation"),
                    at(1),
                ),
            )
            .expect("the entry is appended");
    }
    let cursor = AgentTeamHistoryCursor::start()
        .resuming_at(AgentTeamHistorySequence::new(u64::MAX - 1))
        .with_limit(1);
    let first = history.read(&scope(), cursor).expect("the first page");
    assert_eq!(first.entries.len(), 1);
    let next = first.next.expect("one more follows");
    let last = history.read(&scope(), next).expect("the last page");
    assert_eq!(last.entries.len(), 1);
    assert_eq!(last.entries[0].sequence.get(), u64::MAX);
    assert!(!last.has_more());
}

#[test]
fn a_failed_flush_stops_at_the_conflict() {
    let mut state = posted();
    let mut history = InMemoryAgentTeamHistoryStore::new();
    let other = AgentTeamScope::new(
        TenantId::new("acme"),
        AgentTeamId::new("other").expect("the team id is valid"),
    )
    .expect("the scope is valid");
    for (owner, number) in [(&other, 7), (&scope(), 2)] {
        history
            .append(
                owner,
                AgentTeamHistoryEntry::new(
                    AgentTeamHistorySequence::new(number),
                    AgentTeamHistoryKind::Disbanded,
                    operation("elsewhere"),
                    at(1),
                ),
            )
            .expect("the entry is appended");
    }
    state
        .flush_history(&mut history)
        .expect_err("another entry holds the sequence");
    // The entry before the conflict is in; the team and its neighbour lost
    // nothing.
    assert_eq!(history.len(&scope()), 2);
    assert_eq!(history.len(&other), 1);
    assert_eq!(state.pending_history().len(), 2);
}

#[test]
fn a_retention_floor_is_reported() {
    let mut history = InMemoryAgentTeamHistoryStore::new().with_retention(3);
    fill(&mut history, 10);
    assert_eq!(history.len(&scope()), 3);
    match history.read(&scope(), AgentTeamHistoryCursor::start()) {
        Err(AgentTeamError::HistoryWindowExpired { oldest_retained }) => {
            assert_eq!(oldest_retained.map(|sequence| sequence.get()), Some(8));
        }
        other => panic!("the floor, got {other:?}"),
    }
    let page = history
        .read(
            &scope(),
            AgentTeamHistoryCursor::start().resuming_at(AgentTeamHistorySequence::new(8)),
        )
        .expect("the retained page");
    assert_eq!(page.entries.len(), 3);
    assert!(InMemoryAgentTeamHistoryStore::new().is_empty(&scope()));
}

#[test]
fn an_append_is_idempotent_and_never_rewrites() {
    let mut history = logged(3);
    let same = || {
        AgentTeamHistoryEntry::new(
            AgentTeamHistorySequence::new(2),
            AgentTeamHistoryKind::MessageAppended,
            operation("operation-2"),
            at(2),
        )
    };
    history.append(&scope(), same()).expect("the same entry");
    assert_eq!(history.len(&scope()), 3);
    let error = history
        .append(&scope(), same().with_detail("changed".to_string()))
        .expect_err("another entry");
    assert_eq!(error.code(), "team-history-conflict");
}

#[test]
fn details_are_bounded_at_a_character() {
    let long = "é".repeat(AGENT_TEAM_DETAIL_MAX_LENGTH);
    let bounded = bounded_detail(long);
    assert!(bounded.len() <= AGENT_TEAM_DETAIL_MAX_LENGTH);
    assert_eq!(bounded.chars().count(), AGENT_TEAM_DETAIL_MAX_LENGTH / 2);
    assert_eq!(bounded_detail("short".to_string()), "short");
}

#[test]
fn a_team_record_is_bounded() {
    let bound = AGENT_TEAM_MATERIALIZED_MAX_BYTES - AGENT_TEAM_STATE_GROWTH_RESERVE_BYTES;
    check_bounds(bound).expect("the bound is inclusive");
    let error = check_bounds(bound + 1).expect_err("one byte too many");
    assert_eq!(error.code(), "team-state-too-large");
}

#[test]
fn a_participant_settles_definitive_answers_only() {
    let participant = AgentTeamParticipant;
    let accepted = AgentExchangeResult::accepted("type", String::new());
    participant
        .check_settle(AgentExchangeKind::TeamClaim, &accepted)
        .expect("an acceptance settles");
    participant
        .check_settle(
            AgentExchangeKind::TeamClaim,
            &refused("team-claim-already-owned"),
        )
        .expect("a definitive refusal settles");
    let open = participant
        .check_settle(AgentExchangeKind::TeamClaim, &refused("not-yet"))
        .expect_err("an unknown refusal does not");
    assert_eq!(open.code, "not-yet");
    participant
        .check_settle(
            AgentExchangeKind::TeamTerminalNotice,
            &refused("team-terminal-notice-forged"),
        )
        .expect("a forged notice settles");
    participant
        .check_settle(
            AgentExchangeKind::TeamTerminalNotice,
            &refused("team-terminal-notice-undecodable"),
        )
        .expect_err("an undecodable notice converges later");
    assert!(read_claim_refusal("something-else").is_none());

    let misaddressed = participant.initialize(&task_address(), at(3));
    assert_eq!(misaddressed.scope().team.as_str(), "unroutable");
    let (mut state, _) = claimed();
    let unsupported = participant.apply(
        &mut state,
        &operation("exchange-1"),
        AgentTeamExchange::Other(AgentExchangeKind::Creation),
        &task_address(),
        at(4),
    );
    assert_eq!(unsupported.rejection_code(), Some("unsupported-exchange"));
    let closed = participant.apply(
        &mut state,
        &operation("exchange-2"),
        AgentTeamExchange::TerminalNotice(Ok(AgentTeamTerminalNotice {
            task: task_scope(),
            terminal_reason: "completed".to_string(),
        })),
        &task_address(),
        at(500),
    );
    assert!(closed.is_accepted());
    assert_eq!(entry(&state).status, AgentTeamBoardEntryStatus::Done);
    let undecodable = participant.apply(
        &mut state,
        &operation("exchange-3"),
        AgentTeamExchange::ClaimResult(Err(decode_error())),
        &task_address(),
        at(501),
    );
    assert_eq!(undecodable.rejection_code(), Some("payload-type-mismatch"));
}
