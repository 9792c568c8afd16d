//! Identifiers, logical time, revisions and derived operation identities.

use std::marker::PhantomData;

use vstd::prelude::*;
use vstd::string::*;

use crate::text::{
    byte_len, decimal, decimal_string, is_digit, lemma_decimal_digits, lemma_decimal_injective,
    lemma_encode_concat, lemma_prefix_bytes, text_bytes,
};

verus! {

/// The rejection of a malformed identifier.
#[derive(Debug, Clone, Copy, PartialEq, Eq, Structural)]
#[non_exhaustive]
pub enum AgentIdentityError {
    /// The identifier holds no character.
    Empty,
}

impl AgentIdentityError {
    /// Stable machine-readable code.
    pub fn code(&self) -> (code: &'static str)
        ensures
            code@ == self.code_text(),
    {
        "identity-empty"
    }

    /// The rejection's code.
    pub open spec fn code_text(&self) -> Seq<char> {
        "identity-empty"@
    }

    /// Human-readable rejection.
    pub fn message(&self) -> (text: String)
        ensures
            text@ == self.message_text(),
    {
        "an identifier must not be empty".to_owned()
    }

    /// The rejection as [`Self::message`] words it.
    pub open spec fn message_text(&self) -> Seq<char> {
        "an identifier must not be empty"@
    }
}

/// An identifier of one kind of thing, named by its tag.
///
/// Two identifiers are the same when they have the same text.
#[derive(Debug)]
pub struct Identifier<K> {
    value: String,
    tag: PhantomData<K>,
}

impl<K> View for Identifier<K> {
    type V = Seq<char>;

    closed spec fn view(&self) -> Seq<char> {
        self.value@
    }
}

impl<K> Clone for Identifier<K> {
    fn clone(&self) -> (copy: Self)
        ensures
            copy == *self,
    {
        proof {
            use_type_invariant(self);
        }
        Identifier { value: self.value.clone(), tag: self.tag }
    }
}

impl<K> Identifier<K> {
    #[verifier::type_invariant]
    spec fn is_named(&self) -> bool {
        self.value@.len() > 0
    }

    /// Accepts a text as an identifier, refusing the empty one.
    pub fn new(value: &str) -> (result: Result<Self, AgentIdentityError>)
        ensures
            value@.len() > 0 ==> result is Ok && result->Ok_0@ == value@,
            value@.len() == 0 ==> result == Err::<Self, _>(AgentIdentityError::Empty),
    {
        if value.is_empty() {
            Err(AgentIdentityError::Empty)
        } else {
            Ok(Identifier { value: value.to_owned(), tag: PhantomData })
        }
    }

    /// Accepts a text that is known to hold a character.
    pub(crate) fn from_text(value: String) -> (id: Self)
        requires
            value@.len() > 0,
        ensures
            id@ == value@,
    {
        Identifier { value, tag: PhantomData }
    }

    /// The identifier's text.
    pub fn as_str(&self) -> (text: &str)
        ensures
            text@ == self@,
            text@.len() > 0,
    {
        proof {
            use_type_invariant(self);
        }
        self.value.as_str()
    }

    /// Whether two identifiers are the same.
    pub fn same(&self, other: &Self) -> (result: bool)
        ensures
            result == (self@ == other@),
    {
        self.value == other.value
    }
}

/// Whether two optional identifiers are the same.
pub fn same_optional<K>(a: &Option<Identifier<K>>, b: &Option<Identifier<K>>) -> (result: bool)
    ensures
        result == (optional_text(*a) == optional_text(*b)),
{
    match (a, b) {
        (None, None) => true,
        (Some(x), Some(y)) => x.same(y),
        _ => false,
    }
}

/// The text of an optional identifier.
pub open spec fn optional_text<K>(id: Option<Identifier<K>>) -> Option<Seq<char>> {
    match id {
        Some(id) => Some(id@),
        None => None,
    }
}

/// Copies an optional identifier.
pub fn copy_optional<K>(id: &Option<Identifier<K>>) -> (copy: Option<Identifier<K>>)
    ensures
        copy == *id,
{
    match id {
        Some(id) => Some(id.clone()),
        None => None,
    }
}

/// Tag of [`TenantId`].
#[derive(Debug)]
pub struct TenantTag;

/// Tag of [`AgentGoalId`].
#[derive(Debug)]
pub struct GoalTag;

/// Tag of [`AgentWakeId`].
#[derive(Debug)]
pub struct WakeTag;

/// Tag of [`AgentWakeEventId`].
#[derive(Debug)]
pub struct WakeEventTag;

/// Tag of [`AgentWakeCallbackId`].
#[derive(Debug)]
pub struct WakeCallbackTag;

/// Tag of [`AgentTaskId`].
#[derive(Debug)]
pub struct TaskTag;

/// Tag of [`AgentRunId`].
#[derive(Debug)]
pub struct RunTag;

/// Tag of [`AgentOperationId`].
#[derive(Debug)]
pub struct OperationTag;

/// Tag of [`AgentId`].
#[derive(Debug)]
pub struct AgentTag;

/// Tag of [`AgentTeamId`].
#[derive(Debug)]
pub struct TeamTag;

/// Tag of [`AgentTeamClaimId`].
#[derive(Debug)]
pub struct TeamClaimTag;

/// Tag of [`AgentPolicyRef`].
#[derive(Debug)]
pub struct PolicyTag;

/// Tag of [`AgentCapabilityId`].
#[derive(Debug)]
pub struct CapabilityTag;

/// Tag of [`AgentToolId`].
#[derive(Debug)]
pub struct ToolTag;

/// Tag of [`AgentToolCallId`].
#[derive(Debug)]
pub struct ToolCallTag;

/// Tag of [`AgentEffectId`].
#[derive(Debug)]
pub struct EffectTag;

/// The continuous goal a wake belongs to.
pub type AgentGoalId = Identifier<GoalTag>;

/// One wake's derived identity.
pub type AgentWakeId = Identifier<WakeTag>;

/// One external event that may wake a goal, stable across redelivery.
pub type AgentWakeEventId = Identifier<WakeEventTag>;

/// One external callback that may wake a goal.
pub type AgentWakeCallbackId = Identifier<WakeCallbackTag>;

/// One task.
pub type AgentTaskId = Identifier<TaskTag>;

/// One run.
pub type AgentRunId = Identifier<RunTag>;

/// One operation, stable across redelivery.
pub type AgentOperationId = Identifier<OperationTag>;

/// One agent.
pub type AgentId = Identifier<AgentTag>;

/// One team.
pub type AgentTeamId = Identifier<TeamTag>;

/// One claim a team entry was granted under.
pub type AgentTeamClaimId = Identifier<TeamClaimTag>;

/// An application-owned policy, by reference.
pub type AgentPolicyRef = Identifier<PolicyTag>;

/// One capability scope.
pub type AgentCapabilityId = Identifier<CapabilityTag>;

/// One tool.
pub type AgentToolId = Identifier<ToolTag>;

/// One tool call a model asked for.
pub type AgentToolCallId = Identifier<ToolCallTag>;

/// One effect of a run.
pub type AgentEffectId = Identifier<EffectTag>;

/// A tenant boundary. Any text names a tenant; [`validate_tenant`] says whether
/// it can key durable state.
#[derive(Debug)]
pub struct TenantId {
    value: String,
}

impl View for TenantId {
    type V = Seq<char>;

    closed spec fn view(&self) -> Seq<char> {
        self.value@
    }
}

impl Clone for TenantId {
    fn clone(&self) -> (copy: Self)
        ensures
            copy == *self,
    {
        TenantId { value: self.value.clone() }
    }
}

impl TenantId {
    /// Names a tenant.
    pub fn new(value: &str) -> (tenant: Self)
        ensures
            tenant@ == value@,
    {
        TenantId { value: value.to_owned() }
    }

    /// The tenant's text.
    pub fn as_str(&self) -> (text: &str)
        ensures
            text@ == self@,
    {
        self.value.as_str()
    }

    /// Whether two names are of the same tenant.
    pub fn same(&self, other: &Self) -> (result: bool)
        ensures
            result == (self@ == other@),
    {
        self.value == other.value
    }
}

/// Refuses a tenant that cannot key durable state.
pub fn validate_tenant(tenant: &TenantId) -> (result: Result<(), AgentIdentityError>)
    ensures
        result == (if tenant@.len() > 0 {
            Ok(())
        } else {
            Err(AgentIdentityError::Empty)
        }),
{
    if tenant.as_str().is_empty() {
        Err(AgentIdentityError::Empty)
    } else {
        Ok(())
    }
}

/// A point in logical time, in milliseconds since 1970-01-01 (UTC).
#[derive(Debug, Clone, Copy, PartialEq, Eq, PartialOrd, Ord, Hash, Structural)]
pub struct AgentTimestampMillis {
    /// The milliseconds.
    pub millis: u64,
}

impl AgentTimestampMillis {
    /// Names a point in logical time.
    pub fn new(millis: u64) -> (time: Self)
        ensures
            time == (AgentTimestampMillis { millis }),
    {
        AgentTimestampMillis { millis }
    }

    /// The milliseconds since 1970-01-01 (UTC).
    pub fn as_millis(self) -> (millis: u64)
        ensures
            millis == self.millis,
    {
        self.millis
    }
}

/// A monotonic revision, starting at one.
#[derive(Debug, Clone, Copy, PartialEq, Eq, PartialOrd, Ord, Hash, Structural)]
pub struct AgentRevisionNumber {
    /// The revision's number.
    pub number: u64,
}

impl AgentRevisionNumber {
    /// The first revision of anything.
    pub fn initial() -> (revision: Self)
        ensures
            revision == (AgentRevisionNumber { number: 1 }),
    {
        AgentRevisionNumber { number: 1 }
    }

    /// Names a revision.
    pub fn new(number: u64) -> (revision: Self)
        ensures
            revision == (AgentRevisionNumber { number }),
    {
        AgentRevisionNumber { number }
    }

    /// The revision's number.
    pub fn get(self) -> (number: u64)
        ensures
            number == self.number,
    {
        self.number
    }

    /// The revision that follows this one.
    pub fn next(self) -> (revision: Self)
        ensures
            revision == self.successor(),
    {
        AgentRevisionNumber { number: self.number.saturating_add(1) }
    }

    /// The revision that follows this one; the last one follows itself.
    pub open spec fn successor(self) -> AgentRevisionNumber {
        AgentRevisionNumber {
            number: if self.number < u64::MAX {
                (self.number + 1) as u64
            } else {
                u64::MAX
            },
        }
    }
}

/// Who asked for a change.
#[derive(Debug)]
pub struct PrincipalRef {
    /// The kind of principal.
    pub principal_type: String,
    /// The principal's identity.
    pub principal_id: String,
    /// What people call the principal.
    pub display_name: Option<String>,
}

/// Who accepted a change, when, and under which audit reference.
#[derive(Debug)]
pub struct AgentRevisionProvenance {
    /// Who asked for the change.
    pub principal: PrincipalRef,
    /// When the change was accepted.
    pub accepted_at: AgentTimestampMillis,
    /// What caused the change.
    pub causation_id: String,
    /// The audit event that recorded it.
    pub audit_ref: String,
}

impl Clone for PrincipalRef {
    fn clone(&self) -> (copy: Self)
        ensures
            copy == *self,
    {
        PrincipalRef {
            principal_type: self.principal_type.clone(),
            principal_id: self.principal_id.clone(),
            display_name: match &self.display_name {
                Some(name) => Some(name.clone()),
                None => None,
            },
        }
    }
}

impl Clone for AgentRevisionProvenance {
    fn clone(&self) -> (copy: Self)
        ensures
            copy == *self,
    {
        AgentRevisionProvenance {
            principal: self.principal.clone(),
            accepted_at: self.accepted_at,
            causation_id: self.causation_id.clone(),
            audit_ref: self.audit_ref.clone(),
        }
    }
}

/// What a derived operation does.
#[derive(Debug, Clone, Copy, PartialEq, Eq, Structural)]
#[non_exhaustive]
pub enum AgentOperationKind {
    /// Admitting one wake.
    WakeAdmission,
    /// Admitting one wake's epoch.
    EpochAdmission,
    /// Reporting one epoch's result.
    EpochResult,
    /// An operation a team performs of its own accord.
    TeamOperation,
    /// Asking a task to honor one team claim.
    TeamClaim,
    /// Asking a task to let one team claim go.
    TeamClaimRelease,
    /// Recording one effect's result.
    EffectResult,
}

impl AgentOperationKind {
    /// Stable kebab-case label.
    pub fn as_label(self) -> (label: &'static str)
        ensures
            label@ == self.label_text(),
    {
        match self {
            AgentOperationKind::WakeAdmission => "wake-admission",
            AgentOperationKind::EpochAdmission => "epoch-admission",
            AgentOperationKind::EpochResult => "epoch-result",
            AgentOperationKind::TeamOperation => "team-operation",
            AgentOperationKind::TeamClaim => "team-claim",
            AgentOperationKind::TeamClaimRelease => "team-claim-release",
            AgentOperationKind::EffectResult => "effect-result",
        }
    }

    /// The label of each kind.
    pub open spec fn label_text(self) -> Seq<char> {
        match self {
            AgentOperationKind::WakeAdmission => "wake-admission"@,
            AgentOperationKind::EpochAdmission => "epoch-admission"@,
            AgentOperationKind::EpochResult => "epoch-result"@,
            AgentOperationKind::TeamOperation => "team-operation"@,
            AgentOperationKind::TeamClaim => "team-claim"@,
            AgentOperationKind::TeamClaimRelease => "team-claim-release"@,
            AgentOperationKind::EffectResult => "effect-result"@,
        }
    }
}

/// One segment of a canonical encoding: its length in bytes, a colon, itself.
pub open spec fn prefixed_segment(segment: Seq<char>) -> Seq<char> {
    decimal(byte_len(segment)) + seq![':'] + segment
}

/// The canonical encoding of a list of segments.
pub open spec fn canonical_segments(segments: Seq<Seq<char>>) -> Seq<char>
    decreases segments.len(),
{
    if segments.len() == 0 {
        Seq::empty()
    } else {
        canonical_segments(segments.drop_last()) + prefixed_segment(segments.last())
    }
}

/// The texts of a list of string slices.
pub open spec fn texts(segments: Seq<&str>) -> Seq<Seq<char>> {
    segments.map_values(|segment: &str| segment@)
}

/// A text starts with at most one prefixed segment: the length says where it
/// ends, whatever characters it holds.
pub proof fn lemma_prefixed_segment_unique(
    a: Seq<char>,
    rest_a: Seq<char>,
    b: Seq<char>,
    rest_b: Seq<char>,
)
    requires
        prefixed_segment(a) + rest_a == prefixed_segment(b) + rest_b,
    ensures
        a == b,
        rest_a == rest_b,
{
    let da = decimal(byte_len(a));
    let db = decimal(byte_len(b));
    lemma_decimal_digits(byte_len(a));
    lemma_decimal_digits(byte_len(b));
    let whole = prefixed_segment(a) + rest_a;
    assert(whole[da.len() as int] == ':');
    assert(whole[db.len() as int] == ':') by {
        assert((prefixed_segment(b) + rest_b)[db.len() as int] == ':');
    }
    if da.len() < db.len() {
        assert(whole[da.len() as int] == db[da.len() as int]);
        assert(is_digit(db[da.len() as int]));
        assert(false);
    }
    if db.len() < da.len() {
        assert(whole[db.len() as int] == da[db.len() as int]);
        assert(is_digit(da[db.len() as int]));
        assert(false);
    }
    assert(da =~= db) by {
        assert(whole.subrange(0, da.len() as int) =~= da);
        assert(whole.subrange(0, db.len() as int) =~= db);
    }
    lemma_decimal_injective(byte_len(a), byte_len(b));
    let start = da.len() + 1;
    let tail = whole.subrange(start as int, whole.len() as int);
    assert(tail =~= a + rest_a);
    assert(tail =~= b + rest_b);
    assert(a.len() == b.len()) by {
        if a.len() < b.len() {
            lemma_shorter_prefix_is_smaller(tail, a.len() as int, b.len() as int);
            assert(tail.subrange(0, a.len() as int) =~= a);
            assert(tail.subrange(0, b.len() as int) =~= b);
        }
        if b.len() < a.len() {
            lemma_shorter_prefix_is_smaller(tail, b.len() as int, a.len() as int);
            assert(tail.subrange(0, a.len() as int) =~= a);
            assert(tail.subrange(0, b.len() as int) =~= b);
        }
    }
    assert(a =~= tail.subrange(0, a.len() as int));
    assert(b =~= tail.subrange(0, b.len() as int));
    assert(rest_a =~= tail.subrange(a.len() as int, tail.len() as int));
    assert(rest_b =~= tail.subrange(b.len() as int, tail.len() as int));
}

/// A strictly shorter prefix has strictly fewer bytes.
proof fn lemma_shorter_prefix_is_smaller(text: Seq<char>, shorter: int, longer: int)
    requires
        0 <= shorter < longer <= text.len(),
    ensures
        byte_len(text.subrange(0, shorter)) < byte_len(text.subrange(0, longer)),
{
    let a = text.subrange(0, shorter);
    let next = text.subrange(shorter, shorter + 1);
    assert(text.subrange(0, shorter + 1) =~= a + next);
    lemma_encode_concat(a, next);
    assert(next.len() == 1);
    assert(vstd::utf8::encode_utf8(next).len() > 0) by {
        assert(vstd::utf8::encode_scalar(next[0] as u32).len() > 0);
    }
    lemma_prefix_bytes(text, shorter + 1, longer);
}

/// The encoding of segments, taken from the front.
proof fn lemma_canonical_front(segments: Seq<Seq<char>>)
    requires
        segments.len() > 0,
    ensures
        canonical_segments(segments) == prefixed_segment(segments[0]) + canonical_segments(
            segments.drop_first(),
        ),
    decreases segments.len(),
{
    if segments.len() == 1 {
        assert(segments.drop_last() =~= Seq::<Seq<char>>::empty());
        assert(segments.drop_first() =~= Seq::<Seq<char>>::empty());
        assert(canonical_segments(segments) =~= prefixed_segment(segments[0])
            + canonical_segments(segments.drop_first()));
    } else {
        lemma_canonical_front(segments.drop_last());
        assert(segments.drop_last().drop_first() =~= segments.drop_first().drop_last());
        assert(canonical_segments(segments) =~= prefixed_segment(segments[0])
            + canonical_segments(segments.drop_first()));
    }
}

/// The canonical encoding is injective: equal encodings have equal segments,
/// whatever characters the segments hold.
pub proof fn canonical_encoding_is_injective(a: Seq<Seq<char>>, b: Seq<Seq<char>>)
    requires
        canonical_segments(a) == canonical_segments(b),
    ensures
        a == b,
    decreases a.len(),
{
    if a.len() == 0 || b.len() == 0 {
        if a.len() > 0 {
            lemma_canonical_front(a);
            lemma_decimal_digits(byte_len(a[0]));
            assert(canonical_segments(a).len() > 0);
        }
        if b.len() > 0 {
            lemma_canonical_front(b);
            lemma_decimal_digits(byte_len(b[0]));
            assert(canonical_segments(b).len() > 0);
        }
        assert(a =~= b);
    } else {
        lemma_canonical_front(a);
        lemma_canonical_front(b);
        lemma_prefixed_segment_unique(
            a[0],
            canonical_segments(a.drop_first()),
            b[0],
            canonical_segments(b.drop_first()),
        );
        canonical_encoding_is_injective(a.drop_first(), b.drop_first());
        assert(a =~= seq![a[0]] + a.drop_first());
        assert(b =~= seq![b[0]] + b.drop_first());
    }
}

/// Encodes a list of segments canonically.
pub fn canonical_text(segments: &[&str]) -> (text: String)
    ensures
        text@ == canonical_segments(texts(segments@)),
{
    let mut text = String::new();
    let mut i: usize = 0;
    while i < segments.len()
        invariant
            i <= segments.len(),
            text@ == canonical_segments(texts(segments@.subrange(0, i as int))),
        decreases segments.len() - i,
    {
        let segment = segments[i];
        let length = decimal_string(text_bytes(segment) as u64);
        let ghost before = text@;
        text.append(length.as_str());
        text.append(":");
        text.append(segment);
        proof {
            reveal_strlit(":");
            assert(":"@ =~= seq![':']);
            let done = texts(segments@.subrange(0, i + 1));
            assert(done.drop_last() =~= texts(segments@.subrange(0, i as int)));
            assert(done.last() == segment@);
            assert(text@ =~= before + prefixed_segment(segment@));
        }
        i = i + 1;
    }
    proof {
        assert(segments@.subrange(0, segments@.len() as int) =~= segments@);
    }
    text
}

/// The text of a derived operation identity.
pub open spec fn operation_text(kind: AgentOperationKind, segments: Seq<Seq<char>>) -> Seq<char> {
    kind.label_text() + seq![':'] + canonical_segments(segments)
}

/// Derives the identity of one operation from what it is about.
pub fn derive_operation_id(kind: AgentOperationKind, segments: &[&str]) -> (result: Result<
    AgentOperationId,
    AgentIdentityError,
>)
    ensures
        result is Ok <==> (forall|i: int|
            0 <= i < segments@.len() ==> (#[trigger] segments@[i])@.len() > 0),
        result is Ok ==> result->Ok_0@ == operation_text(kind, texts(segments@)),
        result is Err ==> result->Err_0 == AgentIdentityError::Empty,
{
    let mut i: usize = 0;
    while i < segments.len()
        invariant
            i <= segments.len(),
            forall|k: int| 0 <= k < i ==> (#[trigger] segments@[k])@.len() > 0,
        decreases segments.len() - i,
    {
        if segments[i].is_empty() {
            return Err(AgentIdentityError::Empty);
        }
        i = i + 1;
    }
    let mut text = kind.as_label().to_owned();
    text.append(":");
    let canonical = canonical_text(segments);
    text.append(canonical.as_str());
    proof {
        reveal_strlit(":");
        assert(":"@ =~= seq![':']);
        assert(text@ =~= operation_text(kind, texts(segments@)));
    }
    Ok(Identifier::from_text(text))
}

} // verus!
