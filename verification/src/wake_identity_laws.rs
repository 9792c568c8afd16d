//! What the identities of wakes, operations and epochs promise.

use vstd::prelude::*;
use vstd::utf8::encode_utf8;

use crate::digest::sha256_hex;
use crate::identity::{
    canonical_segments, canonical_text, derive_operation_id, AgentGoalId, AgentIdentityError,
    AgentOperationId, AgentOperationKind, AgentRevisionNumber, AgentTaskId, AgentTimestampMillis,
    AgentWakeId, Identifier, TenantId,
};
use crate::text::decimal;
use crate::wake::{
    epoch_admission_operation_id, epoch_result_operation_id, epoch_task_id_for_wake,
    wake_admission_operation_id, wake_id_for_occurrence, AgentTriggerSource, AgentWakeBinding,
    AgentWakeOccurrence, AgentWakeRestoreError, AgentWakeTriggerKind, ScheduleRevision,
};
use crate::wake_error::AgentWakeError;

verus! {

/// A revision is the number it was made of, and zero stands for the first.
pub proof fn a_revision_is_its_number(value: u64, revision: ScheduleRevision)
    requires
        call_ensures(ScheduleRevision::new, (value,), revision),
    ensures
        value > 0 ==> revision.number() == value,
        value == 0 ==> revision.number() == 1,
{
}

/// A stored revision comes back as it was, and zero was never stored.
pub proof fn a_stored_revision_comes_back(
    value: u64,
    result: Result<ScheduleRevision, AgentWakeRestoreError>,
)
    requires
        call_ensures(ScheduleRevision::restore, (value,), result),
    ensures
        result is Ok <==> value > 0,
        result is Ok ==> result->Ok_0.number() == value,
        result is Err ==> result->Err_0 is ZeroRevision,
{
}

/// Each schedule revision is followed by a greater one, until there is none.
pub proof fn a_next_revision_is_greater(revision: ScheduleRevision, next: ScheduleRevision)
    requires
        call_ensures(ScheduleRevision::next, (revision,), next),
    ensures
        revision.number() < u64::MAX ==> next.number() == revision.number() + 1,
        revision.number() == u64::MAX ==> next.number() == revision.number(),
{
}

/// Each policy revision is followed by a greater one, until there is none.
pub proof fn a_next_policy_revision_is_greater(
    revision: AgentRevisionNumber,
    next: AgentRevisionNumber,
)
    requires
        call_ensures(AgentRevisionNumber::next, (revision,), next),
    ensures
        revision.number < u64::MAX ==> next.number == revision.number + 1,
        revision.number == u64::MAX ==> next.number == revision.number,
{
}

/// Two occurrences are of the same kind and say the same of it.
pub open spec fn one_occurrence(a: AgentWakeOccurrence, b: AgentWakeOccurrence) -> bool {
    ||| a is Scheduled && b is Scheduled && a->Scheduled_due_at.millis
        == b->Scheduled_due_at.millis
    ||| a is ExternalEvent && b is ExternalEvent && a->event@ == b->event@
    ||| a is Command && b is Command && a->operation@ == b->operation@
    ||| a is Callback && b is Callback && a->callback@ == b->callback@
    ||| a is Retry && b is Retry && a->Retry_due_at.millis == b->Retry_due_at.millis && a->cause
        == b->cause && a->attempt == b->attempt
}

/// Two occurrences are told to be the same exactly when kind and content agree.
pub proof fn an_occurrence_is_told_by_its_content(
    a: &AgentWakeOccurrence,
    b: &AgentWakeOccurrence,
    told: bool,
)
    requires
        call_ensures(AgentWakeOccurrence::same, (a, b), told),
    ensures
        told <==> one_occurrence(*a, *b),
{
}

/// A scheduled occurrence and a retry are due when they say; nothing else is due.
pub proof fn an_occurrence_is_due_when_it_says(
    occurrence: &AgentWakeOccurrence,
    due: Option<AgentTimestampMillis>,
)
    requires
        call_ensures(AgentWakeOccurrence::due_at, (occurrence,), due),
    ensures
        due is Some <==> occurrence is Scheduled || occurrence is Retry,
        occurrence is Scheduled ==> due->Some_0 == occurrence->Scheduled_due_at,
        occurrence is Retry ==> due->Some_0 == occurrence->Retry_due_at,
{
}

/// Two occurrences described alike are of one kind and carry one identity value.
pub proof fn a_kind_and_an_identity_tell_an_occurrence(
    a: &AgentWakeOccurrence,
    b: &AgentWakeOccurrence,
    kind_a: &'static str,
    kind_b: &'static str,
    value_a: String,
    value_b: String,
)
    requires
        call_ensures(AgentWakeOccurrence::kind_label, (a,), kind_a),
        call_ensures(AgentWakeOccurrence::kind_label, (b,), kind_b),
        call_ensures(AgentWakeOccurrence::identity_value, (a,), value_a),
        call_ensures(AgentWakeOccurrence::identity_value, (b,), value_b),
    ensures
        kind_a@ == kind_b@ && value_a@ == value_b@ <==> one_occurrence(*a, *b),
{
    crate::wake::an_occurrence_is_its_kind_and_identity(*a, *b);
}

/// What names an occurrence in a wake's digest: its kind.
pub open spec fn kind_named(occurrence: AgentWakeOccurrence) -> Seq<char> {
    if occurrence is Scheduled {
        "scheduled"@
    } else if occurrence is ExternalEvent {
        "external-event"@
    } else if occurrence is Command {
        "a2a-command"@
    } else if occurrence is Callback {
        "callback"@
    } else {
        "controller-retry"@
    }
}

/// A wake is named by the digest of its tenant, goal, schedule revision and
/// occurrence; without a tenant there is no name.
pub proof fn a_wake_is_named_by_what_it_is_of(
    tenant: &TenantId,
    goal: &AgentGoalId,
    revision: ScheduleRevision,
    occurrence: &AgentWakeOccurrence,
    value: String,
    result: Result<AgentWakeId, AgentWakeError>,
)
    requires
        call_ensures(wake_id_for_occurrence, (tenant, goal, revision, occurrence), result),
        call_ensures(AgentWakeOccurrence::identity_value, (occurrence,), value),
    ensures
        result is Ok <==> tenant@.len() > 0,
        result is Err ==> result->Err_0 == AgentWakeError::Identity(AgentIdentityError::Empty),
        result is Ok ==> result->Ok_0@ == "wake-"@ + sha256_hex(
            encode_utf8(
                canonical_segments(
                    seq![
                        tenant@,
                        goal@,
                        decimal(revision.number() as nat),
                        kind_named(*occurrence),
                        value@,
                    ],
                ),
            ),
        ),
        occurrence is Scheduled ==> value@ == decimal(occurrence->Scheduled_due_at.millis as nat),
        occurrence is ExternalEvent ==> value@ == occurrence->event@,
        occurrence is Command ==> value@ == occurrence->operation@,
        occurrence is Callback ==> value@ == occurrence->callback@,
{
}

/// A text that names an operation: the kind's label, then its parts.
pub open spec fn names_operation(
    label: Seq<char>,
    tenant: &TenantId,
    goal: &AgentGoalId,
    wake: &AgentWakeId,
    result: Result<AgentOperationId, AgentWakeError>,
) -> bool {
    let complete = tenant@.len() > 0 && goal@.len() > 0 && wake@.len() > 0;
    &&& result is Ok <==> complete
    &&& complete ==> result->Ok_0@ == label + seq![':'] + canonical_segments(
        seq![tenant@, goal@, wake@],
    )
    &&& !complete ==> result->Err_0 == AgentWakeError::Identity(AgentIdentityError::Empty)
}

/// The three operations of a wake are named by three labels over the same parts.
pub proof fn a_wake_names_three_operations(
    tenant: &TenantId,
    goal: &AgentGoalId,
    wake: &AgentWakeId,
    admission: Result<AgentOperationId, AgentWakeError>,
    epoch: Result<AgentOperationId, AgentWakeError>,
    outcome: Result<AgentOperationId, AgentWakeError>,
)
    requires
        call_ensures(wake_admission_operation_id, (tenant, goal, wake), admission),
        call_ensures(epoch_admission_operation_id, (tenant, goal, wake), epoch),
        call_ensures(epoch_result_operation_id, (tenant, goal, wake), outcome),
    ensures
        names_operation("wake-admission"@, tenant, goal, wake, admission),
        names_operation("epoch-admission"@, tenant, goal, wake, epoch),
        names_operation("epoch-result"@, tenant, goal, wake, outcome),
        admission is Ok ==> admission->Ok_0@ != epoch->Ok_0@ && epoch->Ok_0@ != outcome->Ok_0@
            && admission->Ok_0@ != outcome->Ok_0@,
{
    reveal_strlit("wake-admission");
    reveal_strlit("epoch-admission");
    reveal_strlit("epoch-result");
    if admission is Ok {
        let (a, b, c) = (admission->Ok_0@, epoch->Ok_0@, outcome->Ok_0@);
        assert(a[0] == 'w' && b[0] == 'e' && c[0] == 'e');
        assert(b[6] == 'a' && c[6] == 'r');
    }
}

/// A binding's own admission operation is the one of its tenant, goal and wake.
pub proof fn a_binding_names_its_admission(
    binding: &AgentWakeBinding,
    result: Result<AgentOperationId, AgentWakeError>,
)
    requires
        call_ensures(AgentWakeBinding::admission_operation_id, (binding,), result),
    ensures
        names_operation(
            "wake-admission"@,
            binding.spec_tenant(),
            binding.spec_goal(),
            binding.spec_wake_id(),
            result,
        ),
{
}

/// Two operations share a text only when they are of one label and one list of
/// parts, none of which is empty.
pub proof fn two_operations_never_share_a_name(
    kind: AgentOperationKind,
    a: &[&str],
    b: &[&str],
    of_a: Result<AgentOperationId, AgentIdentityError>,
    of_b: Result<AgentOperationId, AgentIdentityError>,
)
    requires
        call_ensures(derive_operation_id, (kind, a), of_a),
        call_ensures(derive_operation_id, (kind, b), of_b),
    ensures
        of_a is Ok <==> (forall|i: int| 0 <= i < a@.len() ==> (#[trigger] a@[i])@.len() > 0),
        of_a is Err ==> of_a->Err_0 is Empty,
        of_a is Ok && of_b is Ok && of_a->Ok_0@ == of_b->Ok_0@ ==> {
            &&& a@.len() == b@.len()
            &&& forall|i: int| 0 <= i < a@.len() ==> (#[trigger] a@[i])@ == b@[i]@
        },
{
    if of_a is Ok && of_b is Ok && of_a->Ok_0@ == of_b->Ok_0@ {
        let (ta, tb) = (crate::identity::texts(a@), crate::identity::texts(b@));
        let label = kind.label_text().len() as int;
        let (xa, xb) = (of_a->Ok_0@, of_b->Ok_0@);
        assert(xa.subrange(label + 1, xa.len() as int) =~= canonical_segments(ta));
        assert(xb.subrange(label + 1, xb.len() as int) =~= canonical_segments(tb));
        crate::identity::canonical_encoding_is_injective(ta, tb);
        assert(ta.len() == a@.len() && tb.len() == b@.len());
        assert forall|i: int| 0 <= i < a@.len() implies (#[trigger] a@[i])@ == b@[i]@ by {
            assert(ta[i] == a@[i]@ && tb[i] == b@[i]@);
        }
    }
}

/// A list of parts is written one after the other, each behind its length in bytes
/// and a colon.
pub proof fn a_part_is_written_behind_its_length(
    parts: &[&str],
    fewer: &[&str],
    text: String,
    shorter: String,
)
    requires
        call_ensures(canonical_text, (parts,), text),
        call_ensures(canonical_text, (fewer,), shorter),
    ensures
        parts@.len() == 0 ==> text@.len() == 0,
        parts@.len() > 0 && fewer@ == parts@.drop_last() ==> text@ == shorter@ + decimal(
            encode_utf8(parts@.last()@).len(),
        ) + seq![':'] + parts@.last()@,
{
    if parts@.len() > 0 && fewer@ == parts@.drop_last() {
        let (all, front) = (crate::identity::texts(parts@), crate::identity::texts(fewer@));
        assert(all.drop_last() =~= front);
        assert(all.last() == parts@.last()@);
        assert(text@ =~= shorter@ + decimal(encode_utf8(parts@.last()@).len()) + seq![':']
            + parts@.last()@);
    }
}

/// The label of a kind of operation tells the kinds apart.
pub proof fn an_operation_kind_has_its_own_label(
    a: AgentOperationKind,
    b: AgentOperationKind,
    of_a: &'static str,
    of_b: &'static str,
)
    requires
        call_ensures(AgentOperationKind::as_label, (a,), of_a),
        call_ensures(AgentOperationKind::as_label, (b,), of_b),
        of_a@ == of_b@,
    ensures
        a == b,
{
    reveal_strlit("wake-admission");
    reveal_strlit("epoch-admission");
    reveal_strlit("epoch-result");
    reveal_strlit("team-operation");
    reveal_strlit("team-claim");
    reveal_strlit("team-claim-release");
    reveal_strlit("effect-result");
    assert("wake-admission"@[0] == 'w' && "team-operation"@[0] == 't');
    assert("wake-admission"@.len() == 14 && "team-operation"@.len() == 14);
    assert("epoch-admission"@.len() == 15 && "epoch-result"@.len() == 12);
    assert("team-claim"@.len() == 10 && "team-claim-release"@.len() == 18);
    assert("effect-result"@.len() == 13);
    assert(of_a@ == a.label_text() && of_b@ == b.label_text());
    assert(of_a@.len() == of_b@.len());
}

/// An identifier is any text but the empty one, kept as it is.
pub proof fn an_identifier_is_a_text_that_is_not_empty<K>(
    text: &str,
    result: Result<Identifier<K>, AgentIdentityError>,
)
    requires
        call_ensures(Identifier::<K>::new, (text,), result),
    ensures
        result is Ok <==> text@.len() > 0,
        result is Ok ==> result->Ok_0@ == text@,
        result is Err ==> result->Err_0 is Empty,
{
}

/// A wake's epoch is named by the wake's own digest behind another prefix; what is
/// not named as a wake has no epoch.
pub proof fn an_epoch_is_named_after_its_wake(
    wake: &AgentWakeId,
    result: Result<AgentTaskId, AgentWakeError>,
)
    requires
        call_ensures(epoch_task_id_for_wake, (wake,), result),
    ensures
        result is Ok <==> wake@.len() >= 5 && wake@.subrange(0, 5) == "wake-"@,
        result is Ok ==> {
            let epoch = result->Ok_0@;
            &&& epoch.len() == wake@.len() + 1
            &&& epoch.subrange(0, 6) == "epoch-"@
            &&& epoch.subrange(6, epoch.len() as int) == wake@.subrange(5, wake@.len() as int)
        },
        result is Err ==> result->Err_0 is ForeignWakeId && result->Err_0->ForeignWakeId_wake@
            == wake@,
{
    reveal_strlit("wake-");
    reveal_strlit("epoch-");
    if result is Ok {
        let epoch = result->Ok_0@;
        assert(epoch.subrange(0, 6) =~= "epoch-"@);
        assert(epoch.subrange(6, epoch.len() as int) =~= wake@.subrange(5, wake@.len() as int));
    }
}

/// A new binding holds what it was made of, no source, and the wake its own parts
/// name; without a tenant there is none.
pub proof fn a_binding_holds_its_parts(
    tenant: TenantId,
    goal: AgentGoalId,
    revision: ScheduleRevision,
    occurrence: AgentWakeOccurrence,
    trigger: AgentWakeTriggerKind,
    accepted_at: AgentTimestampMillis,
    policy: AgentRevisionNumber,
    named: Result<AgentWakeId, AgentWakeError>,
    result: Result<AgentWakeBinding, AgentWakeError>,
)
    requires
        call_ensures(wake_id_for_occurrence, (&tenant, &goal, revision, &occurrence), named),
        call_ensures(
            AgentWakeBinding::new,
            (tenant, goal, revision, occurrence, trigger, accepted_at, policy),
            result,
        ),
    ensures
        result is Ok <==> tenant@.len() > 0,
        result is Err ==> result->Err_0 == AgentWakeError::Identity(AgentIdentityError::Empty),
        result is Ok ==> {
            let binding = result->Ok_0;
            &&& binding.spec_tenant()@ == tenant@
            &&& binding.spec_goal()@ == goal@
            &&& binding.spec_schedule_revision().number() == revision.number()
            &&& one_occurrence(*binding.spec_occurrence(), occurrence)
            &&& binding.spec_trigger() == trigger
            &&& binding.spec_source() is None
            &&& binding.spec_accepted_at() == accepted_at
            &&& binding.spec_policy_revision() == policy
            &&& binding.spec_wake_id()@ == named->Ok_0@
        },
{
}

/// A source is bound exactly when it was found well formed; it changes no part of
/// the identity, and the wake stays the one it was.
pub proof fn a_source_is_no_part_of_an_identity(
    binding: AgentWakeBinding,
    source: AgentTriggerSource,
    verdict: Result<(), crate::wake_error::AgentTriggerSourceError>,
    result: Result<AgentWakeBinding, AgentWakeError>,
)
    requires
        call_ensures(AgentWakeBinding::with_source, (binding, source, verdict), result),
    ensures
        result is Ok <==> verdict is Ok,
        result is Err ==> result->Err_0 == AgentWakeError::TriggerSource(verdict->Err_0),
        result is Ok ==> {
            let bound = result->Ok_0;
            &&& bound.spec_source() == Some(source)
            &&& bound.spec_wake_id() == binding.spec_wake_id()
            &&& bound.spec_tenant() == binding.spec_tenant()
            &&& bound.spec_goal() == binding.spec_goal()
            &&& bound.spec_schedule_revision() == binding.spec_schedule_revision()
            &&& bound.spec_occurrence() == binding.spec_occurrence()
            &&& bound.spec_trigger() == binding.spec_trigger()
            &&& bound.spec_accepted_at() == binding.spec_accepted_at()
            &&& bound.spec_policy_revision() == binding.spec_policy_revision()
        },
{
}

/// A stored binding comes back exactly when it carries the wake that its own parts
/// name; with another one it is forged.
pub proof fn a_stored_binding_carries_the_wake_it_names(
    tenant: TenantId,
    goal: AgentGoalId,
    revision: ScheduleRevision,
    occurrence: AgentWakeOccurrence,
    trigger: AgentWakeTriggerKind,
    accepted_at: AgentTimestampMillis,
    policy: AgentRevisionNumber,
    wake: &AgentWakeId,
    named: Result<AgentWakeId, AgentWakeError>,
    result: Result<AgentWakeBinding, AgentWakeRestoreError>,
)
    requires
        call_ensures(wake_id_for_occurrence, (&tenant, &goal, revision, &occurrence), named),
        call_ensures(
            AgentWakeBinding::restore,
            (tenant, goal, revision, occurrence, trigger, None, accepted_at, policy, wake),
            result,
        ),
    ensures
        result is Ok <==> tenant@.len() > 0 && wake@ == named->Ok_0@,
        tenant@.len() > 0 && wake@ != named->Ok_0@ ==> result->Err_0 is ForgedIdentity,
        tenant@.len() == 0 ==> result->Err_0 is Rejected,
        result is Ok ==> {
            let binding = result->Ok_0;
            &&& binding.spec_tenant()@ == tenant@
            &&& binding.spec_goal()@ == goal@
            &&& binding.spec_schedule_revision().number() == revision.number()
            &&& one_occurrence(*binding.spec_occurrence(), occurrence)
            &&& binding.spec_trigger() == trigger
            &&& binding.spec_source() is None
            &&& binding.spec_accepted_at() == accepted_at
            &&& binding.spec_policy_revision() == policy
            &&& binding.spec_wake_id()@ == wake@
        },
{
}

/// A stored source is verified again: a binding never comes back with one that was
/// found malformed, and comes back with the one that was found well formed.
pub proof fn a_stored_source_is_verified_again(
    tenant: TenantId,
    goal: AgentGoalId,
    revision: ScheduleRevision,
    occurrence: AgentWakeOccurrence,
    trigger: AgentWakeTriggerKind,
    source: AgentTriggerSource,
    verdict: Result<(), crate::wake_error::AgentTriggerSourceError>,
    accepted_at: AgentTimestampMillis,
    policy: AgentRevisionNumber,
    wake: &AgentWakeId,
    result: Result<AgentWakeBinding, AgentWakeRestoreError>,
)
    requires
        call_ensures(
            AgentWakeBinding::restore,
            (
                tenant,
                goal,
                revision,
                occurrence,
                trigger,
                Some((source, verdict)),
                accepted_at,
                policy,
                wake,
            ),
            result,
        ),
    ensures
        verdict is Err ==> result is Err && result->Err_0 is Rejected,
        verdict is Err && tenant@.len() > 0 ==> result->Err_0 == AgentWakeRestoreError::Rejected(
            AgentWakeError::TriggerSource(verdict->Err_0),
        ),
        result is Ok ==> result->Ok_0.spec_source() == Some(source)
            && result->Ok_0.spec_wake_id()@ == wake@,
{
}

/// Two bindings are of one identity exactly when tenant, goal, schedule revision
/// and occurrence agree, whatever triggered them, and when.
pub proof fn an_identity_is_four_parts(a: &AgentWakeBinding, b: &AgentWakeBinding, told: bool)
    requires
        call_ensures(AgentWakeBinding::same_identity, (a, b), told),
    ensures
        told <==> {
            &&& a.spec_tenant()@ == b.spec_tenant()@
            &&& a.spec_goal()@ == b.spec_goal()@
            &&& a.spec_schedule_revision().number() == b.spec_schedule_revision().number()
            &&& one_occurrence(*a.spec_occurrence(), *b.spec_occurrence())
        },
{
    broadcast use ScheduleRevision::lemma_number_identifies;
}

} // verus!
