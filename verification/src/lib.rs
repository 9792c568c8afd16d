//! Durable coordination rules for long-running agents.
//!
//! The crate decides; it never performs I/O. Wake identity and admission,
//! tool authority, team boards and the deterministic test doubles are all
//! plain state machines whose contracts are proved.

use vstd::prelude::*;

pub mod authority_laws;
pub mod budget;
pub mod building_laws;
pub mod calendar;
pub mod collections;
pub mod definition;
pub mod digest;
pub mod dispatch_laws;
pub mod double_laws;
pub mod effect;
pub mod exchange;
pub mod guardrails;
pub mod identity;
pub mod json;
pub mod naming_laws;
pub mod probe_laws;
pub mod routing_laws;
pub mod team;
pub mod team_board;
pub mod team_command_laws;
pub mod team_commands;
pub mod team_entity;
pub mod team_error;
pub mod team_flush;
pub mod team_history;
pub mod team_history_laws;
pub mod team_journal;
pub mod team_laws;
pub mod team_reading_laws;
pub mod team_settle;
pub mod team_settle_laws;
pub mod testkit_delivery;
pub mod testkit_dispatch;
pub mod testkit_doubles;
pub mod testkit_outcome;
pub mod testkit_probe;
pub mod testkit_script;
pub mod text;
pub mod tool_authority;
pub mod tool_registry_laws;
pub mod tool_router;
pub mod tools;
pub mod wake;
pub mod wake_admission_laws;
pub mod wake_controller;
pub mod wake_error;
pub mod wake_identity_laws;
pub mod wake_laws;
pub mod wake_lifecycle_laws;
pub mod wake_policy;
pub mod wake_reading_laws;
pub mod wake_scanner;
pub mod wake_state;
pub mod window_laws;

verus! {

} // verus!
