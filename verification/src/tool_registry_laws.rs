//! What a tool registry promises: which tools it takes, what it lets a model see,
//! and which failure policy each call dispatches under.

use vstd::prelude::*;
use vstd::utf8::encode_utf8;

use crate::collections::text_before;
use crate::definition::{
    AgentAuthorityEnvelope, AgentEffectSafetyClass, AgentSettings, AgentToolDeclaration,
};
use crate::digest::sha256_hex;
use crate::effect::{
    AgentContentDigest, AgentEffectError, AgentEffectSpec, AgentRunEffect, AgentRunEffectRequest,
    AgentRunEffectStatus, AgentRunScope, AgentToolCallRequest,
};
use crate::identity::{
    canonical_segments, AgentTimestampMillis, AgentToolCallId, AgentToolId, ToolTag,
};
use crate::json::{json_number, json_object, json_optional, json_string, json_text};
use crate::text::{byte_len, decimal};
use crate::tools::{
    AgentEffectPolicies, AgentToolBinding, AgentToolDescriptor, AgentToolError, AgentToolRegistry,
};

verus! {

/// Whether a value, as JSON, takes no more than some bytes.
pub open spec fn fits_in(value: serde_json::Value, bytes: int) -> bool {
    json_text(value) is Some && byte_len(json_text(value)->Some_0) <= bytes
}

/// A descriptor is accepted exactly when it says something, in no more than 1 KiB,
/// and shows parameters, if any, of no more than 4 KiB.
pub proof fn a_descriptor_is_bounded(
    descriptor: &AgentToolDescriptor,
    result: Result<(), AgentToolError>,
)
    requires
        call_ensures(AgentToolDescriptor::validate, (descriptor,), result),
        descriptor.parameters is Some && json_text(descriptor.parameters->Some_0) is Some
            ==> byte_len(json_text(descriptor.parameters->Some_0)->Some_0) <= usize::MAX,
    ensures
        ({
            let length = byte_len(descriptor.description@);
            let fits = descriptor.parameters is Some ==> fits_in(
                descriptor.parameters->Some_0,
                4096,
            );
            &&& result is Ok <==> descriptor.description@.len() > 0 && length <= 1024 && fits
            &&& descriptor.description@.len() == 0 ==> result->Err_0 is EmptyDescription
            &&& descriptor.description@.len() > 0 && length > 1024
                ==> result->Err_0 is DescriptionTooLong
            &&& descriptor.description@.len() > 0 && length <= 1024 && !fits
                ==> result->Err_0 is ParametersTooLarge
        }),
{
}

/// A descriptor's fingerprint is that of everything a model sees of the tool.
pub proof fn a_fingerprint_covers_the_whole_descriptor(
    descriptor: &AgentToolDescriptor,
    digest: AgentContentDigest,
)
    requires
        call_ensures(AgentToolDescriptor::schema_digest, (descriptor,), digest),
    ensures
        ({
            let schema = |schema: crate::tools::AgentSchemaRef|
                json_object(
                    seq![
                        ("schema"@, json_string(schema.schema@)),
                        ("revision"@, json_number(schema.revision.number)),
                    ],
                );
            let shape = json_object(
                seq![
                    ("tool"@, json_string(descriptor.tool@)),
                    ("version"@, json_number(descriptor.version.number)),
                    ("kind"@, json_string(descriptor.kind.label_text())),
                    ("description"@, json_string(descriptor.description@)),
                    ("input_schema"@, schema(descriptor.input_schema)),
                    ("output_schema"@, schema(descriptor.output_schema)),
                    ("parameters"@, json_optional(descriptor.parameters)),
                    ("result_behavior"@, json_string(descriptor.result_behavior.label_text())),
                ],
            );
            json_text(shape) is Some ==> digest@ == sha256_hex(
                encode_utf8(json_text(shape)->Some_0),
            )
        }),
{
}

/// Whether a failure policy can be kept: it permits an attempt, and names a
/// reconciliation protocol exactly for the reconcileable class.
pub open spec fn can_be_kept(spec: AgentEffectSpec) -> bool {
    spec.max_attempts >= 1 && (spec.reconciliation_protocol is Some <==> spec.safety_class
        == AgentEffectSafetyClass::Reconcileable)
}

/// A binding's failure policy is its own declaration's, and is refused where it
/// cannot be kept.
pub proof fn a_binding_dispatches_under_its_own_declaration(
    binding: &AgentToolBinding,
    result: Result<AgentEffectSpec, AgentEffectError>,
    spec: &AgentEffectSpec,
    checked: Result<(), AgentEffectError>,
)
    requires
        call_ensures(AgentToolBinding::effect_spec, (binding,), result),
        call_ensures(AgentEffectSpec::validate, (spec,), checked),
    ensures
        checked is Ok <==> can_be_kept(*spec),
        checked is Err ==> checked->Err_0 is InvalidPolicy,
        result is Ok <==> binding.max_attempts >= 1 && (binding.reconciliation_protocol is Some
            <==> binding.declaration.safety == AgentEffectSafetyClass::Reconcileable),
        result is Err ==> result->Err_0 is InvalidPolicy,
        result is Ok ==> {
            let policy = result->Ok_0;
            &&& policy.safety_class == binding.declaration.safety
            &&& policy.max_attempts == binding.max_attempts
            &&& policy.reconciliation_protocol == binding.reconciliation_protocol
            &&& policy.credential_binding == binding.declaration.credential_binding
            &&& policy.execution_policy == binding.declaration.execution_policy
            &&& policy.timeout_ms == binding.timeout_ms
        },
{
}

/// A tool nobody classified fails safe: one non-idempotent attempt, without
/// capabilities, credential, route, or anything else.
pub proof fn an_unclassified_tool_fails_safe(
    descriptor: AgentToolDescriptor,
    binding: AgentToolBinding,
)
    requires
        call_ensures(AgentToolBinding::unclassified, (descriptor,), binding),
    ensures
        binding.descriptor == descriptor,
        binding.max_attempts == 1,
        binding.declaration.safety == AgentEffectSafetyClass::NonIdempotent,
        binding.declaration.capabilities@ == Set::<Seq<char>>::empty(),
        binding.declaration.credential_binding is None,
        binding.declaration.execution_policy is None,
        binding.reconciliation_protocol is None,
        binding.timeout_ms is None,
        binding.guardrails@ == Set::<Seq<char>>::empty(),
        !binding.checkpoint_required,
{
}

/// A registry takes a tool it does not hold yet, if its descriptor is bounded and
/// its failure policy can be kept, as long as it holds fewer than 256; it then
/// holds that binding under the tool's own name, and the others as before.
pub proof fn a_registry_takes_one_sound_tool(
    registry: AgentToolRegistry,
    binding: AgentToolBinding,
    result: Result<AgentToolRegistry, AgentToolError>,
    described: Result<(), AgentToolError>,
    spec: Result<AgentEffectSpec, AgentEffectError>,
)
    requires
        call_ensures(AgentToolRegistry::register, (registry, binding), result),
        call_ensures(AgentToolDescriptor::validate, (&binding.descriptor,), described),
        call_ensures(AgentToolBinding::effect_spec, (&binding,), spec),
    ensures
        ({
            let tool = binding.descriptor.tool@;
            let full = registry@.len() >= 256;
            let held = registry@.dom().contains(tool);
            &&& result is Ok <==> !full && described is Ok && spec is Ok && !held
            &&& full ==> result->Err_0 is RegistryFull
            &&& !full && described is Err ==> result->Err_0 == described->Err_0
            &&& !full && described is Ok && spec is Err ==> result->Err_0 is Policy
            &&& !full && described is Ok && spec is Ok && held ==> result->Err_0 is DuplicateTool
            &&& result is Ok ==> {
                let next = result->Ok_0;
                &&& next@.dom() == registry@.dom().insert(tool)
                &&& next@[tool] == binding
                &&& forall|other: Seq<char>|
                    other != tool ==> #[trigger] next@[other] == registry@[other]
            }
        }),
{
}

/// A registry's failure policies are those of its bindings, one for each tool, or
/// the error of the first tool whose policy cannot be kept.
pub proof fn the_policies_are_those_of_the_bindings(
    registry: &AgentToolRegistry,
    result: Result<AgentEffectPolicies, AgentEffectError>,
)
    requires
        call_ensures(AgentToolRegistry::effect_policies, (registry,), result),
    ensures
        result is Ok <==> forall|tool: Seq<char>| #[trigger]
            registry@.dom().contains(tool) ==> can_be_kept(registry@[tool].policy()),
        result is Ok ==> result->Ok_0.spec_tools().dom() == registry@.dom(),
        result is Ok ==> forall|tool: Seq<char>| #[trigger]
            registry@.dom().contains(tool) ==> {
                let (policy, binding) = (result->Ok_0.spec_tools()[tool], registry@[tool]);
                &&& policy.safety_class == binding.declaration.safety
                &&& policy.max_attempts == binding.max_attempts
                &&& policy.reconciliation_protocol == binding.reconciliation_protocol
                &&& policy.credential_binding == binding.declaration.credential_binding
                &&& policy.execution_policy == binding.declaration.execution_policy
                &&& policy.timeout_ms == binding.timeout_ms
            },
        result is Err ==> exists|tool: Seq<char>| #[trigger]
            registry@.dom().contains(tool) && !can_be_kept(registry@[tool].policy()) && forall|
                other: Seq<char>,
            | #[trigger]
                registry@.dom().contains(other) && text_before(other, tool) ==> can_be_kept(
                    registry@[other].policy(),
                ),
{
    if result is Err {
        let tool = choose|tool: Seq<char>| #[trigger]
            registry.objects_first(tool) && registry@[tool].policy().objection() == Some(
                result->Err_0.message_text(),
            );
        assert(registry@.dom().contains(tool));
        assert(!can_be_kept(registry@[tool].policy()));
    }
}

/// A call dispatches under its tool's own policy; an unregistered tool and every
/// other kind of effect under one non-idempotent attempt, and a model call under
/// one read-only attempt.
pub proof fn a_call_dispatches_under_its_policy(
    policies: &AgentEffectPolicies,
    request: &AgentRunEffectRequest,
    spec: &AgentEffectSpec,
)
    requires
        call_ensures(AgentEffectPolicies::spec_for, (policies, request), spec),
    ensures
        ({
            let known = *request is Tool && policies.spec_tools().dom().contains(
                request->call.tool@,
            );
            &&& known ==> *spec == policies.spec_tools()[request->call.tool@]
            &&& !known ==> {
                &&& spec.max_attempts == 1
                &&& spec.safety_class == if *request is Model {
                    AgentEffectSafetyClass::ReadOnly
                } else {
                    AgentEffectSafetyClass::NonIdempotent
                }
                &&& spec.credential_binding is None
                &&& spec.execution_policy is None
                &&& spec.reconciliation_protocol is None
            }
        }),
{
}

/// The declarations of a registry are those its bindings authorize.
pub proof fn the_declarations_are_those_of_the_bindings(
    registry: &AgentToolRegistry,
    declarations: crate::collections::IdMap<ToolTag, AgentToolDeclaration>,
)
    requires
        call_ensures(AgentToolRegistry::tool_declarations, (registry,), declarations),
    ensures
        declarations@.dom() == registry@.dom(),
        forall|tool: Seq<char>| #[trigger]
            registry@.dom().contains(tool) ==> {
                let (declared, bound) = (declarations@[tool], registry@[tool].declaration);
                &&& declared.safety == bound.safety
                &&& declared.capabilities@ == bound.capabilities@
                &&& declared.credential_binding == bound.credential_binding
                &&& declared.execution_policy == bound.execution_policy
            },
{
}

/// Whether a descriptor is that of a registered tool which the envelope declares
/// and the settings do not revoke.
pub open spec fn is_shown(
    registry: AgentToolRegistry,
    envelope: AgentAuthorityEnvelope,
    settings: AgentSettings,
    descriptor: AgentToolDescriptor,
) -> bool {
    exists|tool: Seq<char>| #[trigger]
        registry@.dom().contains(tool) && envelope.tools@.dom().contains(tool)
            && !settings.revoked_tools@.contains(tool) && descriptor == registry@[tool].descriptor
}

/// A model sees exactly the registered tools that the envelope declares and the
/// settings do not revoke, by their descriptors.
pub proof fn a_model_sees_what_is_declared_and_not_revoked(
    registry: &AgentToolRegistry,
    envelope: &AgentAuthorityEnvelope,
    settings: &AgentSettings,
    visible: Vec<&AgentToolDescriptor>,
)
    requires
        call_ensures(AgentToolRegistry::model_visible, (registry, envelope, settings), visible),
    ensures
        forall|i: int|
            0 <= i < visible@.len() ==> is_shown(
                *registry,
                *envelope,
                *settings,
                *#[trigger] visible@[i],
            ),
        forall|tool: Seq<char>| #[trigger]
            registry@.dom().contains(tool) && envelope.tools@.dom().contains(tool)
                && !settings.revoked_tools@.contains(tool) ==> exists|i: int|
                0 <= i < visible@.len() && *(#[trigger] visible@[i]) == registry@[tool].descriptor,
        visible@.len() <= registry@.dom().len(),
{
    let keys = registry.spec_tools();
    let keep = |tool: Seq<char>| AgentToolRegistry::is_visible(*envelope, *settings, tool);
    let kept = registry.visible_tools(*envelope, *settings);
    assert(kept == keys.filter(keep));
    lemma_kept(keys, keep);
    keys.lemma_filter_len(keep);
    assert forall|i: int| 0 <= i < visible@.len() implies is_shown(
        *registry,
        *envelope,
        *settings,
        *#[trigger] visible@[i],
    ) by {
        assert(keep(kept[i]) && keys.contains(kept[i]));
        assert(keys.to_set().contains(kept[i]));
        assert(registry@.dom().contains(kept[i]));
    }
    assert forall|tool: Seq<char>| #[trigger]
        registry@.dom().contains(tool) && envelope.tools@.dom().contains(tool)
            && !settings.revoked_tools@.contains(tool) implies exists|i: int|
        0 <= i < visible@.len() && *(#[trigger] visible@[i]) == registry@[tool].descriptor by {
        assert(keys.to_set().contains(tool));
        let at = keys.index_of(tool);
        assert(keep(keys[at]));
        assert(kept.contains(keys[at]));
        let i = kept.index_of(tool);
        assert(*visible@[i] == registry@[tool].descriptor);
    }
    lemma_in_order_unique(keys);
    keys.unique_seq_to_set();
}

proof fn lemma_in_order_unique(keys: Seq<Seq<char>>)
    requires
        crate::collections::keys_in_order(keys),
    ensures
        keys.no_duplicates(),
{
    assert forall|i: int, j: int| 0 <= i < keys.len() && 0 <= j < keys.len() && i != j implies
        keys[i] != keys[j] by {
        crate::collections::text_order_is_strict_and_total(keys[i], keys[j], keys[i]);
        if i < j {
            assert(text_before(keys[i], keys[j]));
        } else {
            assert(text_before(keys[j], keys[i]));
        }
    }
}

proof fn lemma_kept<A>(elements: Seq<A>, keep: spec_fn(A) -> bool)
    ensures
        forall|i: int|
            0 <= i < elements.filter(keep).len() ==> keep(#[trigger] elements.filter(keep)[i])
                && elements.contains(elements.filter(keep)[i]),
        forall|i: int|
            0 <= i < elements.len() && keep(#[trigger] elements[i]) ==> elements.filter(
                keep,
            ).contains(elements[i]),
    decreases elements.len(),
{
    reveal(Seq::filter);
    if elements.len() > 0 {
        let rest = elements.drop_last();
        lemma_kept(rest, keep);
        let kept = elements.filter(keep);
        assert forall|i: int| 0 <= i < kept.len() implies keep(#[trigger] kept[i])
            && elements.contains(kept[i]) by {
            if i < rest.filter(keep).len() {
                assert(rest.filter(keep)[i] == kept[i]);
                let k = rest.index_of(kept[i]);
                assert(elements[k] == kept[i]);
            } else {
                assert(elements[elements.len() - 1] == kept[i]);
            }
        }
        assert forall|i: int| 0 <= i < elements.len() && keep(#[trigger] elements[i]) implies
            kept.contains(elements[i]) by {
            if i < rest.len() {
                assert(rest[i] == elements[i]);
                assert(rest.filter(keep).contains(rest[i]));
                let k = rest.filter(keep).index_of(elements[i]);
                assert(kept[k] == elements[i]);
            } else {
                assert(kept[kept.len() - 1] == elements[i]);
            }
        }
    }
}

/// A tool call is made of arguments that can be written, in no more than 16 KiB,
/// as they are.
pub proof fn a_tool_call_is_bounded(
    call_id: AgentToolCallId,
    tool: AgentToolId,
    arguments: serde_json::Value,
    result: Result<AgentToolCallRequest, AgentEffectError>,
)
    requires
        call_ensures(AgentToolCallRequest::new, (call_id, tool, arguments), result),
    ensures
        result is Ok <==> fits_in(arguments, 16_384),
        json_text(arguments) is None ==> result->Err_0 == AgentEffectError::Unencodable,
        json_text(arguments) is Some && result is Err ==> result->Err_0
            == AgentEffectError::ArgumentsTooLarge,
        result is Ok ==> result->Ok_0.call_id == call_id && result->Ok_0.tool == tool
            && result->Ok_0.arguments == arguments,
{
}

/// An effect's fingerprint is that of its arguments: a tool call's own, as JSON,
/// and for a model call its context and the profile it asked for.
pub proof fn a_fingerprint_is_of_the_arguments(
    request: &AgentRunEffectRequest,
    result: Result<AgentContentDigest, AgentEffectError>,
)
    requires
        call_ensures(AgentRunEffectRequest::argument_digest, (request,), result),
    ensures
        *request is Tool ==> (result is Ok <==> json_text(request->call.arguments) is Some),
        !(*request is Tool) ==> result is Ok,
        result is Err ==> result->Err_0 == AgentEffectError::Unencodable,
        *request is Tool && result is Ok ==> result->Ok_0@ == sha256_hex(
            encode_utf8(json_text(request->call.arguments)->Some_0),
        ),
        *request is Model ==> result->Ok_0@ == sha256_hex(
            encode_utf8(
                canonical_segments(
                    if request->Model_profile is Some {
                        seq![request->context@, request->Model_profile->Some_0@]
                    } else {
                        seq![request->context@]
                    },
                ),
            ),
        ),
{
}

/// An effect is derived once for its place: its identity, which is also its
/// idempotency key, is that of its run, turn and slot, it waits at its first
/// generation without an attempt, and it carries its request, that request's
/// fingerprint and its policy as they are.
pub proof fn an_effect_is_derived_from_its_place(
    scope: &AgentRunScope,
    turn: u64,
    slot: u64,
    request: AgentRunEffectRequest,
    spec: &AgentEffectSpec,
    now: AgentTimestampMillis,
    result: Result<AgentRunEffect, AgentEffectError>,
    digest: Result<AgentContentDigest, AgentEffectError>,
)
    requires
        call_ensures(AgentRunEffect::new, (scope, turn, slot, request, spec, now), result),
        call_ensures(AgentRunEffectRequest::argument_digest, (&request,), digest),
    ensures
        result is Ok <==> digest is Ok,
        result is Ok ==> {
            let effect = result->Ok_0;
            &&& effect.effect_id@ == canonical_segments(
                seq![
                    scope.tenant@,
                    scope.agent@,
                    scope.run@,
                    decimal(turn as nat),
                    decimal(slot as nat),
                ],
            )
            &&& effect.idempotency_key@ == effect.effect_id@
            &&& effect.generation.number == 1
            &&& effect.turn == turn
            &&& effect.slot == slot
            &&& effect.request == request
            &&& effect.argument_digest@ == digest->Ok_0@
            &&& effect.safety == spec.safety_class
            &&& effect.max_attempts == spec.max_attempts
            &&& effect.credential_binding == spec.credential_binding
            &&& effect.execution_policy == spec.execution_policy
            &&& effect.status == AgentRunEffectStatus::Ready
            &&& effect.attempts == 0
            &&& effect.committed_at == now
        },
{
}

/// Two places never share an effect.
pub proof fn two_places_never_share_an_effect(
    a: AgentRunScope,
    a_turn: u64,
    a_slot: u64,
    b: AgentRunScope,
    b_turn: u64,
    b_slot: u64,
)
    requires
        crate::effect::effect_text(a, a_turn, a_slot) == crate::effect::effect_text(
            b,
            b_turn,
            b_slot,
        ),
    ensures
        a.tenant@ == b.tenant@,
        a.agent@ == b.agent@,
        a.run@ == b.run@,
        a_turn == b_turn,
        a_slot == b_slot,
{
    let left = seq![
        a.tenant@,
        a.agent@,
        a.run@,
        decimal(a_turn as nat),
        decimal(a_slot as nat),
    ];
    let right = seq![
        b.tenant@,
        b.agent@,
        b.run@,
        decimal(b_turn as nat),
        decimal(b_slot as nat),
    ];
    crate::identity::canonical_encoding_is_injective(left, right);
    assert(left[0] == right[0] && left[1] == right[1] && left[2] == right[2]);
    assert(left[3] == right[3] && left[4] == right[4]);
    crate::text::lemma_decimal_injective(a_turn as nat, b_turn as nat);
    crate::text::lemma_decimal_injective(a_slot as nat, b_slot as nat);
}

} // verus!
