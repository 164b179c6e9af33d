//! The rules that model orchestration applies to what it has read.

use vstd::prelude::*;

use crate::entity::{
    PlacementAssignment, PlacementGroupState, PlacementRecord, PlacementRecordView,
    PlacementRequest, PlacementRequestView, RuntimeCandidate, RuntimeCandidateView,
    RuntimeIdentity, RuntimeIdentityView, RuntimeInstallation, RuntimeInstallationView,
};
use crate::identity::{
    clone_ids, same_ids, sort_ids, sorted_ids, unique_ids, ModelServiceId, NodeId, OperationId,
    PlacementGroupId, RuntimeInstallationId, TargetId, TechnicalName,
};
use crate::node_model_contract::{
    evidence_labels_of, NodeModelAction, NodeModelCommandIdentity, NodeModelCommandIdentityView,
    NodeModelCommandResult, NodeModelCommandResultView, NodeModelCommandSummary,
    NodeModelCommandSummaryView, NodeModelError, NodeModelInstallRequest,
    NodeModelInstallRequestView, NodeModelJournal, NodeModelJournalView, NodeModelLogProjection,
    NodeModelLogProjectionView, NodeModelLogSummary, NodeModelLogSummaryView,
    NodeModelRemoveRequest, NodeModelRemoveRequestView, NodeModelRollbackRuntime,
    NodeModelRollbackRuntimeView, NodeModelServiceProjection, NodeModelServiceProjectionView,
    NodeModelServiceSummary, NodeModelServiceSummaryView, NodeModelUpdateRequest,
    NodeModelUpdateRequestView, VersionedNodeModelJournalView,
};
use crate::sequence::{
    copy_optional, distinct, outcome, same_all, same_optional, viewed, views, Valued,
};
use crate::text::{decimal, decimal_text};

verus! {

// ---------------------------------------------------------------------------
// Replays
// ---------------------------------------------------------------------------

/// An install retry that repeats its durable command exactly.
pub open spec fn install_matches(
    journal: NodeModelJournalView,
    request: NodeModelInstallRequestView,
) -> bool {
    &&& journal.action == NodeModelAction::Install
    &&& journal.operation_id == request.identity.operation_id
    &&& journal.idempotency_key == request.identity.idempotency_key
    &&& journal.service_id == request.service_id
    &&& journal.logical_model == request.logical_model
    &&& journal.install_groups == request.groups
}

/// Returns whether one install retry exactly matches its normalized durable command.
pub fn install_request_matches(
    journal: &NodeModelJournal,
    request: &NodeModelInstallRequest,
) -> (matches: bool)
    ensures
        matches == install_matches(journal@, request@),
{
    journal.action == NodeModelAction::Install && journal.operation_id
        == request.identity.operation_id && journal.idempotency_key.same(
        &request.identity.idempotency_key,
    ) && journal.service_id == request.service_id && journal.logical_model.same(
        &request.logical_model,
    ) && same_all(&journal.install_groups, &request.groups)
}

/// An update retry that repeats its durable command exactly.
pub open spec fn update_matches(
    journal: NodeModelJournalView,
    request: NodeModelUpdateRequestView,
) -> bool {
    &&& journal.action == NodeModelAction::Update
    &&& journal.operation_id == request.identity.operation_id
    &&& journal.idempotency_key == request.identity.idempotency_key
    &&& journal.service_id == request.service_id
    &&& forall|i: int|
        0 <= i < journal.install_groups.len() ==> (
        #[trigger] journal.install_groups[i]).explicit_candidate_id == request.explicit_candidate_id
}

/// Returns whether one update replay uses the exact same normalized service command.
pub fn update_request_matches(
    journal: &NodeModelJournal,
    request: &NodeModelUpdateRequest,
) -> (matches: bool)
    ensures
        matches == update_matches(journal@, request@),
{
    if journal.action != NodeModelAction::Update || journal.operation_id
        != request.identity.operation_id || !journal.idempotency_key.same(
        &request.identity.idempotency_key,
    ) || journal.service_id != request.service_id {
        return false;
    }
    let ghost groups = journal@.install_groups;
    let mut i: usize = 0;
    while i < journal.install_groups.len()
        invariant
            i <= journal.install_groups@.len(),
            groups == views(journal.install_groups@),
            forall|k: int|
                0 <= k < i ==> (#[trigger] groups[k]).explicit_candidate_id
                    == request@.explicit_candidate_id,
        decreases journal.install_groups@.len() - i,
    {
        if !same_optional(
            &journal.install_groups[i].explicit_candidate_id,
            &request.explicit_candidate_id,
        ) {
            assert(groups[i as int].explicit_candidate_id != request@.explicit_candidate_id);
            return false;
        }
        i += 1;
    }
    true
}

/// A rollback retry that repeats its durable command exactly.
pub open spec fn rollback_matches(
    journal: NodeModelJournalView,
    identity: NodeModelCommandIdentityView,
    service_id: ModelServiceId,
    target_id: Option<Seq<char>>,
) -> bool {
    &&& journal.action == NodeModelAction::Rollback
    &&& journal.operation_id == identity.operation_id
    &&& journal.idempotency_key == identity.idempotency_key
    &&& journal.service_id == service_id
    &&& journal.rollback_target_id == target_id
}

/// Returns whether one rollback replay matches the exact persisted service and target selection.
pub fn rollback_request_matches(
    journal: &NodeModelJournal,
    identity: &NodeModelCommandIdentity,
    service_id: &ModelServiceId,
    target_id: &Option<TargetId>,
) -> (matches: bool)
    ensures
        matches == rollback_matches(journal@, identity@, *service_id, viewed(*target_id)),
{
    journal.action == NodeModelAction::Rollback && journal.operation_id == identity.operation_id
        && journal.idempotency_key.same(&identity.idempotency_key) && journal.service_id
        == *service_id && same_optional(&journal.rollback_target_id, target_id)
}

/// A removal retry that repeats its durable command exactly.
pub open spec fn remove_matches(
    journal: NodeModelJournalView,
    request: NodeModelRemoveRequestView,
) -> bool {
    &&& journal.service_id == request.service_id
    &&& journal.action == NodeModelAction::Remove
    &&& journal.idempotency_key == request.identity.idempotency_key
    &&& journal.removal_node_ids == request.selection.nodes()
    &&& journal.removal_runtime_retention == request.runtime_retention
}

/// Returns the selected nodes of one removal, none when every group is selected.
pub fn removal_node_ids(request: &NodeModelRemoveRequest) -> (ids: Vec<NodeId>)
    ensures
        ids@ == request@.selection.nodes(),
{
    match request.selection.node_ids() {
        Some(ids) => clone_ids(ids),
        None => {
            let ids: Vec<NodeId> = Vec::new();
            assert(ids@ =~= request@.selection.nodes());
            ids
        },
    }
}

/// Returns whether one removal replay matches its exact persisted command.
pub fn remove_request_matches(
    journal: &NodeModelJournal,
    request: &NodeModelRemoveRequest,
) -> (matches: bool)
    ensures
        matches == remove_matches(journal@, request@),
{
    journal.service_id == request.service_id && journal.action == NodeModelAction::Remove
        && journal.idempotency_key.same(&request.identity.idempotency_key) && same_ids(
        &journal.removal_node_ids,
        &removal_node_ids(request),
    ) && journal.removal_runtime_retention == request.runtime_retention
}

/// A lifecycle retry that repeats its durable command exactly.
pub open spec fn existing_matches(
    journal: NodeModelJournalView,
    identity: NodeModelCommandIdentityView,
    service_id: ModelServiceId,
    action: NodeModelAction,
) -> bool {
    &&& journal.service_id == service_id
    &&& journal.action == action
    &&& journal.idempotency_key == identity.idempotency_key
}

/// Returns whether one lifecycle replay matches its exact persisted command.
pub fn existing_request_matches(
    journal: &NodeModelJournal,
    identity: &NodeModelCommandIdentity,
    service_id: &ModelServiceId,
    action: NodeModelAction,
) -> (matches: bool)
    ensures
        matches == existing_matches(journal@, identity@, *service_id, action),
{
    journal.service_id == *service_id && journal.action == action && journal.idempotency_key.same(
        &identity.idempotency_key,
    )
}

// ---------------------------------------------------------------------------
// Placements
// ---------------------------------------------------------------------------

/// The nodes of one list of assignments.
pub open spec fn assigned_nodes(placements: Seq<PlacementAssignment>) -> Seq<NodeId> {
    Seq::new(placements.len(), |i: int| placements[i].node_id)
}

/// The nodes of one record in the order of their identities.
pub open spec fn record_nodes(record: PlacementRecordView) -> Seq<NodeId> {
    sorted_ids(assigned_nodes(record.placements))
}

/// Returns the nodes of one list of assignments.
pub fn nodes_of_placements(placements: &Vec<PlacementAssignment>) -> (ids: Vec<NodeId>)
    ensures
        ids@ == assigned_nodes(views(placements@)),
{
    let mut ids: Vec<NodeId> = Vec::new();
    let mut i: usize = 0;
    while i < placements.len()
        invariant
            i <= placements@.len(),
            ids@.len() == i,
            forall|k: int| 0 <= k < i ==> ids@[k] == (#[trigger] placements@[k]).node_id,
        decreases placements@.len() - i,
    {
        ids.push(placements[i].node_id);
        i += 1;
    }
    assert(ids@ =~= assigned_nodes(views(placements@)));
    ids
}

/// Returns one placement record's exact node set in stable identity order.
pub fn placement_node_ids(record: &PlacementRecord) -> (ids: Vec<NodeId>)
    ensures
        ids@ == record_nodes(record@),
{
    sort_ids(nodes_of_placements(&record.placements))
}

/// The redacted form of one runtime identity.
pub open spec fn rollback_runtime_of(runtime: RuntimeIdentityView) -> NodeModelRollbackRuntimeView {
    NodeModelRollbackRuntimeView {
        candidate_id: runtime.candidate_id,
        version: runtime.version,
        target_id: runtime.target_id,
        source: runtime.source,
    }
}

/// Projects one exact runtime identity into the redacted rollback preview shape.
pub fn rollback_runtime(runtime: &RuntimeIdentity) -> (preview: NodeModelRollbackRuntime)
    ensures
        preview@ == rollback_runtime_of(runtime@),
{
    NodeModelRollbackRuntime::new(
        runtime.candidate_id.copy(),
        runtime.version.copy(),
        runtime.target_id.copy(),
        runtime.source.copy(),
    )
}

/// A retained predecessor that keeps the topology and changes the immutable runtime bytes.
pub open spec fn rollback_pair_valid(
    current: PlacementRecordView,
    previous: PlacementRecordView,
) -> bool {
    &&& current.group.service_id == previous.group.service_id
    &&& current.group.state != PlacementGroupState::Removed
    &&& previous.group.state == PlacementGroupState::Removed
    &&& current.group.runtime.candidate_id == previous.group.runtime.candidate_id
    &&& current.group.runtime.target_id == previous.group.runtime.target_id
    &&& current.group.runtime.version != previous.group.runtime.version
    &&& current.group.runtime.source != previous.group.runtime.source
    &&& record_nodes(current) == record_nodes(previous)
}

/// Requires one retained predecessor to preserve topology and change immutable runtime bytes.
pub fn rollback_pair_is_valid(
    current: &PlacementRecord,
    previous: &PlacementRecord,
) -> (valid: bool)
    ensures
        valid == rollback_pair_valid(current@, previous@),
{
    current.group.service_id == previous.group.service_id && current.group.state
        != PlacementGroupState::Removed && previous.group.state == PlacementGroupState::Removed
        && current.group.runtime.candidate_id.same(&previous.group.runtime.candidate_id)
        && current.group.runtime.target_id.same(&previous.group.runtime.target_id)
        && !current.group.runtime.version.same(&previous.group.runtime.version)
        && !current.group.runtime.source.same(&previous.group.runtime.source) && same_ids(
        &placement_node_ids(current),
        &placement_node_ids(previous),
    )
}

/// The state that a failed rollback restores.
pub open spec fn rollback_intent(state: PlacementGroupState) -> Result<
    PlacementGroupState,
    NodeModelError,
> {
    match state {
        PlacementGroupState::Running => Ok(PlacementGroupState::Running),
        PlacementGroupState::Staged => Ok(PlacementGroupState::Stopped),
        PlacementGroupState::Stopped => Ok(PlacementGroupState::Stopped),
        _ => Err(NodeModelError::RecoveryRequired),
    }
}

/// Normalizes one current group state to the exact intent restored after rollback failure.
pub fn rollback_initial_state(state: PlacementGroupState) -> (intent: Result<
    PlacementGroupState,
    NodeModelError,
>)
    ensures
        intent == rollback_intent(state),
{
    match state {
        PlacementGroupState::Running => Ok(PlacementGroupState::Running),
        PlacementGroupState::Staged | PlacementGroupState::Stopped => {
            Ok(PlacementGroupState::Stopped)
        },
        _ => Err(NodeModelError::RecoveryRequired),
    }
}

/// The runtime that every installation of one group shares.
pub open spec fn group_runtime(installations: Seq<RuntimeInstallationView>) -> Result<
    RuntimeIdentityView,
    NodeModelError,
> {
    if installations.len() == 0 {
        Err(
            NodeModelError::InvalidRequest {
                reason: "placement group has no runtime installation",
            },
        )
    } else if forall|i: int|
        0 <= i < installations.len() ==> (#[trigger] installations[i]).runtime
            == installations[0].runtime {
        Ok(installations[0].runtime)
    } else {
        Err(
            NodeModelError::InvalidRequest {
                reason: "placement group installations have different runtime identities",
            },
        )
    }
}

/// Requires every installation in one group to expose the same sealed runtime identity.
pub fn require_group_runtime_identity(installations: &Vec<RuntimeInstallation>) -> (runtime: Result<
    RuntimeIdentity,
    NodeModelError,
>)
    ensures
        outcome(runtime) == group_runtime(views(installations@)),
{
    if installations.len() == 0 {
        return Err(
            NodeModelError::InvalidRequest {
                reason: "placement group has no runtime installation",
            },
        );
    }
    let ghost all = views(installations@);
    let mut i: usize = 0;
    while i < installations.len()
        invariant
            i <= installations@.len(),
            installations@.len() > 0,
            all == views(installations@),
            forall|k: int| 0 <= k < i ==> (#[trigger] all[k]).runtime == all[0].runtime,
        decreases installations@.len() - i,
    {
        if !installations[i].runtime.same(&installations[0].runtime) {
            assert(all[i as int].runtime != all[0].runtime);
            return Err(
                NodeModelError::InvalidRequest {
                    reason: "placement group installations have different runtime identities",
                },
            );
        }
        i += 1;
    }
    Ok(installations[0].runtime.copy())
}

/// The installation that a list of assignments binds to one node; a later binding replaces an
/// earlier one.
pub open spec fn bound_installation(
    bindings: Seq<PlacementAssignment>,
    node_id: NodeId,
) -> Option<RuntimeInstallationId>
    decreases bindings.len(),
{
    if bindings.len() == 0 {
        None
    } else if bindings.last().node_id == node_id {
        Some(bindings.last().runtime_installation_id)
    } else {
        bound_installation(bindings.drop_last(), node_id)
    }
}

fn find_bound(bindings: &Vec<PlacementAssignment>, node_id: &NodeId) -> (bound: Option<
    RuntimeInstallationId,
>)
    ensures
        bound == bound_installation(bindings@, *node_id),
{
    let mut i: usize = bindings.len();
    proof {
        assert(bindings@.take(i as int) =~= bindings@);
    }
    while i > 0
        invariant
            i <= bindings@.len(),
            bound_installation(bindings@, *node_id) == bound_installation(
                bindings@.take(i as int),
                *node_id,
            ),
        decreases i,
    {
        proof {
            assert(bindings@.take(i as int).drop_last() =~= bindings@.take(i - 1));
            assert(bindings@.take(i as int).last() == bindings@[i - 1]);
        }
        if bindings[i - 1].node_id == *node_id {
            return Some(bindings[i - 1].runtime_installation_id);
        }
        i -= 1;
    }
    None
}

/// The bindings of one list of installations.
pub open spec fn installation_bindings(installations: Seq<RuntimeInstallationView>) -> Seq<
    PlacementAssignment,
> {
    Seq::new(
        installations.len(),
        |i: int|
            PlacementAssignment {
                node_id: installations[i].node_id,
                runtime_installation_id: installations[i].installation_id,
            },
    )
}

/// The bindings that one placement request asks for.
pub open spec fn request_bindings(request: PlacementRequestView) -> Seq<PlacementAssignment> {
    Seq::new(
        request.nodes.len(),
        |i: int|
            PlacementAssignment {
                node_id: request.nodes[i].node_id,
                runtime_installation_id: request.nodes[i].runtime_installation_id,
            },
    )
}

fn bindings_of_installations(installations: &Vec<RuntimeInstallation>) -> (bindings: Vec<
    PlacementAssignment,
>)
    ensures
        bindings@ == installation_bindings(views(installations@)),
{
    let mut bindings: Vec<PlacementAssignment> = Vec::new();
    let mut i: usize = 0;
    while i < installations.len()
        invariant
            i <= installations@.len(),
            bindings@.len() == i,
            forall|k: int|
                0 <= k < i ==> bindings@[k] == installation_bindings(views(installations@))[k],
        decreases installations@.len() - i,
    {
        bindings.push(
            PlacementAssignment {
                node_id: installations[i].node_id,
                runtime_installation_id: installations[i].installation_id,
            },
        );
        i += 1;
    }
    assert(bindings@ =~= installation_bindings(views(installations@)));
    bindings
}

fn bindings_of_request(request: &PlacementRequest) -> (bindings: Vec<PlacementAssignment>)
    ensures
        bindings@ == request_bindings(request@),
{
    let mut bindings: Vec<PlacementAssignment> = Vec::new();
    let mut i: usize = 0;
    while i < request.nodes.len()
        invariant
            i <= request.nodes@.len(),
            bindings@.len() == i,
            forall|k: int| 0 <= k < i ==> bindings@[k] == request_bindings(request@)[k],
        decreases request.nodes@.len() - i,
    {
        bindings.push(
            PlacementAssignment {
                node_id: request.nodes[i].node_id,
                runtime_installation_id: request.nodes[i].runtime_installation_id,
            },
        );
        i += 1;
    }
    assert(bindings@ =~= request_bindings(request@));
    bindings
}

/// Every assignment is what the expected bindings say for its node.
pub open spec fn bindings_agree(
    assignments: Seq<PlacementAssignment>,
    expected: Seq<PlacementAssignment>,
) -> bool {
    forall|i: int|
        0 <= i < assignments.len() ==> bound_installation(
            expected,
            (#[trigger] assignments[i]).node_id,
        ) == Some(assignments[i].runtime_installation_id)
}

fn bindings_are_agreed(
    assignments: &Vec<PlacementAssignment>,
    expected: &Vec<PlacementAssignment>,
) -> (agreed: bool)
    ensures
        agreed == bindings_agree(assignments@, expected@),
{
    let mut i: usize = 0;
    while i < assignments.len()
        invariant
            i <= assignments@.len(),
            forall|k: int|
                0 <= k < i ==> bound_installation(expected@, (#[trigger] assignments@[k]).node_id)
                    == Some(assignments@[k].runtime_installation_id),
        decreases assignments@.len() - i,
    {
        let bound = find_bound(expected, &assignments[i].node_id);
        if bound != Some(assignments[i].runtime_installation_id) {
            assert(bound_installation(expected@, assignments@[i as int].node_id) != Some(
                assignments@[i as int].runtime_installation_id,
            ));
            return false;
        }
        i += 1;
    }
    true
}

/// What a placement request must bind: the exact group, service, runtime, nodes and installations.
pub open spec fn placement_request_checked(
    request: PlacementRequestView,
    placement_group_id: PlacementGroupId,
    service_id: ModelServiceId,
    installations: Seq<RuntimeInstallationView>,
) -> Result<(), NodeModelError> {
    match group_runtime(installations) {
        Err(error) => Err(error),
        Ok(runtime) => if request.placement_group_id != placement_group_id || request.service_id
            != service_id || request.runtime != runtime {
            Err(
                NodeModelError::InvalidRequest {
                    reason: "placement request differs from its service or runtime receipts",
                },
            )
        } else {
            let expected = installation_bindings(installations);
            if request.nodes.len() != distinct(assigned_nodes(expected)).len() || !bindings_agree(
                request_bindings(request),
                expected,
            ) {
                Err(
                    NodeModelError::InvalidRequest {
                        reason: "placement request node bindings differ from runtime receipts",
                    },
                )
            } else {
                Ok(())
            }
        },
    }
}

/// Requires one provider request to bind the exact service, runtime, nodes, and installations.
pub fn validate_placement_request(
    request: &PlacementRequest,
    placement_group_id: &PlacementGroupId,
    service_id: &ModelServiceId,
    installations: &Vec<RuntimeInstallation>,
) -> (result: Result<(), NodeModelError>)
    ensures
        result == placement_request_checked(
            request@,
            *placement_group_id,
            *service_id,
            views(installations@),
        ),
{
    let runtime = require_group_runtime_identity(installations)?;
    if request.placement_group_id != *placement_group_id || request.service_id != *service_id
        || !request.runtime.same(&runtime) {
        return Err(
            NodeModelError::InvalidRequest {
                reason: "placement request differs from its service or runtime receipts",
            },
        );
    }
    let expected = bindings_of_installations(installations);
    proof {
        assert(views(expected@) =~= expected@);
    }
    let nodes = unique_ids(&nodes_of_placements(&expected));
    let asked = bindings_of_request(request);
    if request.nodes.len() != nodes.len() || !bindings_are_agreed(&asked, &expected) {
        return Err(
            NodeModelError::InvalidRequest {
                reason: "placement request node bindings differ from runtime receipts",
            },
        );
    }
    Ok(())
}

/// A record that represents one placement request exactly.
pub open spec fn record_matches(
    record: PlacementRecordView,
    request: PlacementRequestView,
) -> bool {
    &&& record.group.service_id == request.service_id
    &&& record.group.runtime == request.runtime
    &&& record.placements.len() == request.nodes.len()
    &&& bindings_agree(record.placements, request_bindings(request))
}

/// Returns whether one authoritative aggregate exactly represents one placement request.
pub fn placement_record_matches(
    record: &PlacementRecord,
    request: &PlacementRequest,
) -> (matches: bool)
    ensures
        matches == record_matches(record@, request@),
{
    if record.group.service_id != request.service_id || !record.group.runtime.same(&request.runtime)
        || record.placements.len() != request.nodes.len() {
        return false;
    }
    proof {
        assert(views(record.placements@) =~= record.placements@);
    }
    bindings_are_agreed(&record.placements, &bindings_of_request(request))
}

/// An installation of exactly the selected immutable candidate.
pub open spec fn candidate_installed(
    candidate: RuntimeCandidateView,
    installation: RuntimeInstallationView,
) -> bool {
    &&& installation.logical_model == candidate.logical_model
    &&& installation.runtime == candidate.runtime
    &&& installation.artifacts == candidate.artifacts
}

/// Returns whether one installation is the exact selected immutable candidate.
pub fn candidate_matches_installation(
    candidate: &RuntimeCandidate,
    installation: &RuntimeInstallation,
) -> (matches: bool)
    ensures
        matches == candidate_installed(candidate@, installation@),
{
    installation.logical_model.same(&candidate.logical_model) && installation.runtime.same(
        &candidate.runtime,
    ) && same_all(&installation.artifacts, &candidate.artifacts)
}

// ---------------------------------------------------------------------------
// Keys and codes
// ---------------------------------------------------------------------------

/// The replay identity of one command phase.
pub open spec fn phase(journal: NodeModelJournalView, name: Seq<char>) -> Seq<char> {
    journal.idempotency_key + "."@ + name
}

/// Returns one bounded database idempotency identity for a command phase.
pub fn phase_key(journal: &NodeModelJournal, name: &str) -> (key: String)
    ensures
        key@ == phase(journal@, name@),
{
    journal.idempotency_key.as_str().to_owned().concat(".").concat(name)
}

/// The name of one phase that belongs to a group: a prefix, the group and a suffix.
pub open spec fn group_phase(
    prefix: Seq<char>,
    placement_group_id: PlacementGroupId,
    suffix: Seq<char>,
) -> Seq<char> {
    prefix + placement_group_id.text() + suffix
}

/// Returns the name of one phase that belongs to a group.
pub fn group_phase_name(
    prefix: &str,
    placement_group_id: &PlacementGroupId,
    suffix: &str,
) -> (name: String)
    ensures
        name@ == group_phase(prefix@, *placement_group_id, suffix@),
{
    prefix.to_owned().concat(placement_group_id.to_text().as_str()).concat(suffix)
}

/// The name of the attachment of one planned position.
pub open spec fn attach_phase(group_index: usize) -> Seq<char> {
    "group."@ + decimal_text(group_index as nat) + ".attach"@
}

/// Returns the name of the attachment of one planned position.
pub fn attach_phase_name(group_index: usize) -> (name: String)
    ensures
        name@ == attach_phase(group_index),
{
    "group.".to_owned().concat(decimal(group_index as u64).as_str()).concat(".attach")
}

/// The stable code of one failure.
pub open spec fn failure_text(error: NodeModelError) -> Seq<char> {
    match error {
        NodeModelError::InvalidRequest { .. } => "model_request_invalid"@,
        NodeModelError::StateUnavailable => "model_state_unavailable"@,
        NodeModelError::Runtime(_) => "model_runtime_failed"@,
        NodeModelError::Placement(_) => "model_placement_failed"@,
        NodeModelError::JournalUnavailable => "model_journal_failed"@,
        NodeModelError::JournalConflict => "model_journal_failed"@,
        NodeModelError::JournalCorrupt => "model_journal_failed"@,
        NodeModelError::ProviderUnavailable => "model_provider_failed"@,
        NodeModelError::RecoveryRequired => "model_recovery_required"@,
    }
}

/// Maps one redacted failure surface to a stable non-secret operation code.
pub fn failure_code(error: &NodeModelError) -> (code: Result<TechnicalName, NodeModelError>)
    ensures
        outcome(code) == Ok::<Seq<char>, NodeModelError>(failure_text(*error)),
{
    proof {
        reveal_strlit("model_request_invalid");
        reveal_strlit("model_state_unavailable");
        reveal_strlit("model_runtime_failed");
        reveal_strlit("model_placement_failed");
        reveal_strlit("model_journal_failed");
        reveal_strlit("model_provider_failed");
        reveal_strlit("model_recovery_required");
    }
    let value = match error {
        NodeModelError::InvalidRequest { .. } => "model_request_invalid",
        NodeModelError::StateUnavailable => "model_state_unavailable",
        NodeModelError::Runtime(_) => "model_runtime_failed",
        NodeModelError::Placement(_) => "model_placement_failed",
        NodeModelError::JournalUnavailable | NodeModelError::JournalConflict
        | NodeModelError::JournalCorrupt => "model_journal_failed",
        NodeModelError::ProviderUnavailable => "model_provider_failed",
        NodeModelError::RecoveryRequired => "model_recovery_required",
    };
    match TechnicalName::parse(value) {
        Ok(name) => Ok(name),
        Err(_) => Err(NodeModelError::StateUnavailable),
    }
}

// ---------------------------------------------------------------------------
// Summaries
// ---------------------------------------------------------------------------

/// The installations of one projection by identity.
pub open spec fn installation_ids_of(installations: Seq<RuntimeInstallationView>) -> Seq<
    RuntimeInstallationId,
> {
    Seq::new(installations.len(), |i: int| installations[i].installation_id)
}

/// The closed summary of one service projection.
pub open spec fn service_summary_of(
    projection: NodeModelServiceProjectionView,
) -> NodeModelServiceSummaryView {
    NodeModelServiceSummaryView {
        service_id: projection.service.service_id,
        logical_model: projection.service.logical_model,
        desired_state: projection.service.desired_state,
        placement_group_ids: projection.service.placement_group_ids,
        runtime_installation_ids: installation_ids_of(projection.installations),
        evidence_labels: evidence_labels_of(projection.installations),
    }
}

/// Converts one complete coordinator projection into the closed private service summary.
pub fn service_summary(
    projection: &NodeModelServiceProjection,
) -> (summary: NodeModelServiceSummary)
    ensures
        summary@ == service_summary_of(projection@),
{
    let mut ids: Vec<RuntimeInstallationId> = Vec::new();
    let mut i: usize = 0;
    while i < projection.installations.len()
        invariant
            i <= projection.installations@.len(),
            ids@.len() == i,
            forall|k: int|
                0 <= k < i ==> ids@[k] == (#[trigger] projection.installations@[k]).installation_id,
        decreases projection.installations@.len() - i,
    {
        ids.push(projection.installations[i].installation_id);
        i += 1;
    }
    assert(ids@ =~= installation_ids_of(projection@.installations));
    let labels = projection.evidence_labels();
    assert(views(labels@) =~= labels@);
    NodeModelServiceSummary::new(
        projection.service.service_id,
        projection.service.logical_model.copy(),
        projection.service.desired_state,
        clone_ids(&projection.service.placement_group_ids),
        ids,
        labels,
    )
}

/// The closed summary of one command result.
pub open spec fn command_summary_of(
    result: NodeModelCommandResultView,
) -> NodeModelCommandSummaryView {
    NodeModelCommandSummaryView {
        operation_id: result.operation.operation_id,
        service_id: result.service.service_id,
        logical_model: result.service.logical_model,
        desired_state: result.service.desired_state,
        action: result.journal.journal.action,
        journal_state: result.journal.journal.state,
        failure_code: result.journal.journal.failure_code,
    }
}

/// Converts one complete coordinator result into the closed private command summary.
pub fn command_summary(result: &NodeModelCommandResult) -> (summary: NodeModelCommandSummary)
    ensures
        summary@ == command_summary_of(result@),
{
    NodeModelCommandSummary::new(
        result.operation.operation_id,
        result.service.service_id,
        result.service.logical_model.copy(),
        result.service.desired_state,
        result.journal.journal.action,
        result.journal.journal.state,
        copy_optional(&result.journal.journal.failure_code),
    )
}

/// The failure codes that a list of journals records, in order.
pub open spec fn failure_codes_of(journals: Seq<VersionedNodeModelJournalView>) -> Seq<Seq<char>>
    decreases journals.len(),
{
    if journals.len() == 0 {
        Seq::empty()
    } else {
        let earlier = failure_codes_of(journals.drop_last());
        match journals.last().journal.failure_code {
            Some(code) => earlier.push(code),
            None => earlier,
        }
    }
}

/// The bounded redacted form of one log projection.
pub open spec fn log_summary_of(
    service_id: ModelServiceId,
    logs: NodeModelLogProjectionView,
) -> NodeModelLogSummaryView {
    NodeModelLogSummaryView {
        service_id,
        operation_ids: Seq::new(logs.operations.len(), |i: int| logs.operations[i].operation_id),
        journal_operation_ids: Seq::new(
            logs.journals.len(),
            |i: int| logs.journals[i].journal.operation_id,
        ),
        failure_codes: failure_codes_of(logs.journals),
    }
}

/// Converts one complete coordinator log projection into bounded redacted identities.
pub fn log_summary(
    service_id: &ModelServiceId,
    logs: &NodeModelLogProjection,
) -> (summary: NodeModelLogSummary)
    ensures
        summary@ == log_summary_of(*service_id, logs@),
{
    let mut operation_ids: Vec<OperationId> = Vec::new();
    let mut i: usize = 0;
    while i < logs.operations.len()
        invariant
            i <= logs.operations@.len(),
            operation_ids@.len() == i,
            forall|k: int|
                0 <= k < i ==> operation_ids@[k] == (#[trigger] logs.operations@[k]).operation_id,
        decreases logs.operations@.len() - i,
    {
        operation_ids.push(logs.operations[i].operation_id);
        i += 1;
    }
    let mut journal_ids: Vec<OperationId> = Vec::new();
    let mut codes: Vec<TechnicalName> = Vec::new();
    let ghost journals = views(logs.journals@);
    let mut j: usize = 0;
    proof {
        assert(views(codes@) =~= failure_codes_of(journals.take(0)));
    }
    while j < logs.journals.len()
        invariant
            j <= logs.journals@.len(),
            journals == views(logs.journals@),
            journal_ids@.len() == j,
            forall|k: int|
                0 <= k < j ==> journal_ids@[k] == (
                #[trigger] logs.journals@[k]).journal.operation_id,
            views(codes@) == failure_codes_of(journals.take(j as int)),
        decreases logs.journals@.len() - j,
    {
        let journal = &logs.journals[j].journal;
        let ghost before = views(codes@);
        proof {
            assert(journals.take(j + 1).drop_last() =~= journals.take(j as int));
            assert(journals.take(j + 1).last() == journals[j as int]);
        }
        journal_ids.push(journal.operation_id);
        match &journal.failure_code {
            Some(code) => {
                codes.push(code.copy());
                assert(views(codes@) =~= before.push(code@));
            },
            None => {},
        }
        j += 1;
    }
    proof {
        assert(journals.take(journals.len() as int) =~= journals);
        let expected = log_summary_of(*service_id, logs@);
        assert(operation_ids@ =~= expected.operation_ids);
        assert(journal_ids@ =~= expected.journal_operation_ids);
    }
    NodeModelLogSummary::new(*service_id, operation_ids, journal_ids, codes)
}

} // verus!
