//! Exchanges between durable entities: who sends, what kind, how it is answered.

use vstd::prelude::*;
use vstd::string::*;

use crate::effect::AgentRunScope;
use crate::identity::{
    canonical_segments, canonical_text, texts, validate_tenant, AgentId, AgentIdentityError,
    AgentTeamId, Identifier, TenantId,
};
use crate::text::{byte_len, join3, lemma_decimal_digits};
use crate::wake_scanner::AgentTaskScope;

verus! {

/// What an exchange is about.
#[derive(Debug, Clone, Copy, PartialEq, Eq, PartialOrd, Ord, Hash, Structural)]
#[non_exhaustive]
pub enum AgentExchangeKind {
    /// Creating an entity.
    Creation,
    /// Assigning work.
    Assignment,
    /// Proposing a result.
    ResultProposal,
    /// Allocating budget.
    BudgetAllocation,
    /// Settling budget.
    BudgetSettlement,
    /// Returning budget.
    BudgetReturn,
    /// Reporting an epoch's result.
    EpochResult,
    /// Evaluating a goal.
    GoalEvaluation,
    /// Reporting a delegation's result.
    DelegationResult,
    /// Cancelling a run.
    RunCancel,
    /// Cancelling a delegation.
    DelegationCancel,
    /// A team's claim action on a task.
    TeamClaim,
    /// A task's resolution of a team claim.
    TeamClaimResult,
    /// A task's terminal notice to a team.
    TeamTerminalNotice,
}

impl AgentExchangeKind {
    /// Stable kebab-case label.
    pub fn as_label(self) -> (label: &'static str)
        ensures
            label@ == self.label_text(),
    {
        match self {
            AgentExchangeKind::Creation => "creation",
            AgentExchangeKind::Assignment => "assignment",
            AgentExchangeKind::ResultProposal => "result-proposal",
            AgentExchangeKind::BudgetAllocation => "budget-allocation",
            AgentExchangeKind::BudgetSettlement => "budget-settlement",
            AgentExchangeKind::BudgetReturn => "budget-return",
            AgentExchangeKind::EpochResult => "epoch-result",
            AgentExchangeKind::GoalEvaluation => "goal-evaluation",
            AgentExchangeKind::DelegationResult => "delegation-result",
            AgentExchangeKind::RunCancel => "run-cancel",
            AgentExchangeKind::DelegationCancel => "delegation-cancel",
            AgentExchangeKind::TeamClaim => "team-claim",
            AgentExchangeKind::TeamClaimResult => "team-claim-result",
            AgentExchangeKind::TeamTerminalNotice => "team-terminal-notice",
        }
    }

    /// The label of each kind.
    pub open spec fn label_text(self) -> Seq<char> {
        match self {
            AgentExchangeKind::Creation => "creation"@,
            AgentExchangeKind::Assignment => "assignment"@,
            AgentExchangeKind::ResultProposal => "result-proposal"@,
            AgentExchangeKind::BudgetAllocation => "budget-allocation"@,
            AgentExchangeKind::BudgetSettlement => "budget-settlement"@,
            AgentExchangeKind::BudgetReturn => "budget-return"@,
            AgentExchangeKind::EpochResult => "epoch-result"@,
            AgentExchangeKind::GoalEvaluation => "goal-evaluation"@,
            AgentExchangeKind::DelegationResult => "delegation-result"@,
            AgentExchangeKind::RunCancel => "run-cancel"@,
            AgentExchangeKind::DelegationCancel => "delegation-cancel"@,
            AgentExchangeKind::TeamClaim => "team-claim"@,
            AgentExchangeKind::TeamClaimResult => "team-claim-result"@,
            AgentExchangeKind::TeamTerminalNotice => "team-terminal-notice"@,
        }
    }
}

/// Tag of [`AgentScopeKey`].
#[derive(Debug)]
pub struct ScopeTag;

/// The key of one scope's durable state.
pub type AgentScopeKey = Identifier<ScopeTag>;

/// The durable scope of one team.
#[derive(Debug)]
pub struct AgentTeamScope {
    /// The tenant boundary.
    pub tenant: TenantId,
    /// The team.
    pub team: AgentTeamId,
}

impl AgentTeamScope {
    /// Scopes a team, refusing a tenant that keys nothing.
    pub fn new(tenant: TenantId, team: AgentTeamId) -> (result: Result<Self, AgentIdentityError>)
        ensures
            result == (if tenant@.len() > 0 {
                Ok::<Self, AgentIdentityError>(AgentTeamScope { tenant, team })
            } else {
                Err(AgentIdentityError::Empty)
            }),
    {
        match validate_tenant(&tenant) {
            Ok(_) => Ok(AgentTeamScope { tenant, team }),
            Err(error) => Err(error),
        }
    }

    /// The scope's text: the tenant, a slash, the team.
    pub open spec fn text(&self) -> Seq<char> {
        self.tenant@ + "/"@ + self.team@
    }

    /// The text the scope keys durable state by.
    pub open spec fn key_text(&self) -> Seq<char> {
        canonical_segments(seq![self.tenant@, self.team@])
    }

    /// The key of the scope's durable state.
    pub fn key(&self) -> (key: AgentScopeKey)
        ensures
            key@ == self.key_text(),
    {
        let segments: [&str; 2] = [self.tenant.as_str(), self.team.as_str()];
        let text = canonical_text(&segments);
        proof {
            let listed = seq![self.tenant@, self.team@];
            assert(texts(segments@) =~= listed);
            lemma_decimal_digits(byte_len(listed.last()));
        }
        Identifier::from_text(text)
    }

    /// The scope in words.
    pub fn describe(&self) -> (text: String)
        ensures
            text@ == self.text(),
    {
        join3(self.tenant.as_str(), "/", self.team.as_str())
    }
}

impl Clone for AgentTeamScope {
    fn clone(&self) -> (copy: Self)
        ensures
            copy == *self,
    {
        AgentTeamScope { tenant: self.tenant.clone(), team: self.team.clone() }
    }
}

/// The address of one durable entity.
#[derive(Debug)]
#[non_exhaustive]
pub enum AgentEntityAddress {
    /// An agent.
    Agent {
        /// Its tenant.
        tenant: TenantId,
        /// The agent.
        agent: AgentId,
    },
    /// A task.
    Task(AgentTaskScope),
    /// A run.
    Run(AgentRunScope),
    /// A team.
    Team(AgentTeamScope),
}

/// The class of one durable entity.
#[derive(Debug, Clone, Copy, PartialEq, Eq, Structural)]
#[non_exhaustive]
pub enum AgentEntityClass {
    /// An agent.
    Agent,
    /// A task.
    Task,
    /// A run.
    Run,
    /// A team.
    Team,
}

impl AgentEntityAddress {
    /// The class of the entity.
    pub open spec fn spec_class(&self) -> AgentEntityClass {
        match self {
            AgentEntityAddress::Agent { .. } => AgentEntityClass::Agent,
            AgentEntityAddress::Task(_) => AgentEntityClass::Task,
            AgentEntityAddress::Run(_) => AgentEntityClass::Run,
            AgentEntityAddress::Team(_) => AgentEntityClass::Team,
        }
    }

    /// The class of the entity.
    pub fn class(&self) -> (class: AgentEntityClass)
        ensures
            class == self.spec_class(),
    {
        match self {
            AgentEntityAddress::Agent { .. } => AgentEntityClass::Agent,
            AgentEntityAddress::Task(_) => AgentEntityClass::Task,
            AgentEntityAddress::Run(_) => AgentEntityClass::Run,
            AgentEntityAddress::Team(_) => AgentEntityClass::Team,
        }
    }

    /// Whether the address is that of a task in a tenant.
    pub open spec fn is_task(&self, scope: &AgentTaskScope) -> bool {
        match self {
            AgentEntityAddress::Task(own) => own.tenant@ == scope.tenant@ && own.task@
                == scope.task@,
            _ => false,
        }
    }

    /// Whether the address is that of a task in a tenant.
    pub fn names_task(&self, scope: &AgentTaskScope) -> (result: bool)
        ensures
            result == self.is_task(scope),
    {
        match self {
            AgentEntityAddress::Task(own) => own.tenant.same(&scope.tenant) && own.task.same(
                &scope.task,
            ),
            _ => false,
        }
    }

    /// The tenant the entity belongs to.
    pub open spec fn spec_tenant(&self) -> TenantId {
        match self {
            AgentEntityAddress::Agent { tenant, .. } => *tenant,
            AgentEntityAddress::Task(scope) => scope.tenant,
            AgentEntityAddress::Run(scope) => scope.tenant,
            AgentEntityAddress::Team(scope) => scope.tenant,
        }
    }

    /// The tenant the entity belongs to.
    pub fn tenant(&self) -> (tenant: &TenantId)
        ensures
            *tenant == self.spec_tenant(),
    {
        match self {
            AgentEntityAddress::Agent { tenant, .. } => tenant,
            AgentEntityAddress::Task(scope) => &scope.tenant,
            AgentEntityAddress::Run(scope) => &scope.tenant,
            AgentEntityAddress::Team(scope) => &scope.tenant,
        }
    }
}

/// A payload that could not be decoded.
#[derive(Debug)]
pub struct AgentExchangeDecodeError {
    /// The stable code.
    pub code: String,
    /// The failure in words.
    pub message: String,
}

/// A bounded receipt: what kind of payload it is, and a detail.
#[derive(Debug)]
pub struct AgentExchangePayload {
    /// The payload's type.
    pub payload_type: &'static str,
    /// The detail; empty for a bare receipt.
    pub detail: String,
}

/// How a receiver answered an exchange.
#[derive(Debug)]
#[non_exhaustive]
pub enum AgentExchangeResult {
    /// The receiver applied the exchange.
    Accepted {
        /// The receipt.
        payload: AgentExchangePayload,
    },
    /// The receiver refused the exchange. Whether for good, its code and the
    /// exchange's kind tell.
    Rejected {
        /// The stable refusal code.
        code: String,
        /// The refusal in words.
        message: String,
        /// The receipt.
        payload: AgentExchangePayload,
    },
}

/// What an answer says.
pub struct AnswerModel {
    /// The refusal's code and words, when it is one.
    pub refusal: Option<(Seq<char>, Seq<char>)>,
    /// The receipt's type.
    pub payload_type: Seq<char>,
    /// The receipt's detail.
    pub detail: Seq<char>,
}

impl View for AgentExchangeResult {
    type V = AnswerModel;

    open spec fn view(&self) -> AnswerModel {
        match self {
            AgentExchangeResult::Accepted { payload } => AnswerModel {
                refusal: None,
                payload_type: payload.payload_type@,
                detail: payload.detail@,
            },
            AgentExchangeResult::Rejected { code, message, payload } => AnswerModel {
                refusal: Some((code@, message@)),
                payload_type: payload.payload_type@,
                detail: payload.detail@,
            },
        }
    }
}

impl AgentExchangeResult {
    /// Whether the receiver applied the exchange.
    pub fn is_accepted(&self) -> (result: bool)
        ensures
            result == (self@.refusal is None),
    {
        matches!(self, AgentExchangeResult::Accepted { .. })
    }

    /// The refusal code, when the receiver refused.
    pub fn rejection_code(&self) -> (code: Option<&str>)
        ensures
            match code {
                Some(code) => self@.refusal is Some && self@.refusal->Some_0.0 == code@,
                None => self@.refusal is None,
            },
    {
        match self {
            AgentExchangeResult::Accepted { .. } => None,
            AgentExchangeResult::Rejected { code, .. } => Some(code.as_str()),
        }
    }

    /// An acceptance with a detail.
    pub fn accepted(payload_type: &'static str, detail: String) -> (result: Self)
        ensures
            result@ == (AnswerModel {
                refusal: None,
                payload_type: payload_type@,
                detail: detail@,
            }),
    {
        AgentExchangeResult::Accepted { payload: AgentExchangePayload { payload_type, detail } }
    }

    /// A refusal with a detail.
    pub fn rejected(
        code: String,
        message: String,
        payload_type: &'static str,
        detail: String,
    ) -> (result: Self)
        ensures
            result@ == (AnswerModel {
                refusal: Some((code@, message@)),
                payload_type: payload_type@,
                detail: detail@,
            }),
    {
        AgentExchangeResult::Rejected {
            code,
            message,
            payload: AgentExchangePayload { payload_type, detail },
        }
    }
}

} // verus!
