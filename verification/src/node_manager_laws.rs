//! What the commits of the node manager hold: which changes they stand for, and which they leave
//! out.

use vstd::prelude::*;

use crate::database::{
    DatabaseError, DatabaseResultView, DatabaseRevision, NodeManagerError, StoredView,
};
use crate::entity::{
    HardwareObservationView, ModelServiceDesiredState, ModelServiceView, NodeRole, NodeState,
    NodeView, OperationKind, OperationState, OperationTarget, OperationView,
};
use crate::identity::{NodeId, OperationId, PlacementGroupId, UnixMilliseconds};
use crate::node_manager::{
    active_mains, child_transition, group_attachment, group_detachment, hardware_recording,
    operation_beginning, operation_completing, operation_starting, remaining_groups,
    service_creation, service_transition, sole_active_main, stays, stored_observation, NodeCommitView, NodeStepView,
    NodeTransition, NodeWriteView,
};
use crate::node_model_world::OperationCompletionView;
use crate::node_outbox::{
    acknowledgement_step, event_entity, event_kind, outbox_all, outbox_from, outbox_listed,
    outbox_pending, NodeManagerEvent, NodeOutboxDatabaseRecordView, NodeOutboxEventView,
    NodeOutboxState, OutboxStepView, VersionedNodeOutboxEventView,
};
use crate::node_role::{
    local_role_step, role_commit, Counterpart, LocalNodeRoleTransitionView, RoleChangeView,
    RoleStepView,
};
use crate::node_model_plan_outcomes::{lemma_selected_picks, picks};
use crate::sequence::selected;

verus! {

/// A write stores an event that is still to be delivered, under an identity that is not taken.
pub open spec fn announces(
    write: NodeWriteView,
    event: NodeManagerEvent,
    occurred_at: UnixMilliseconds,
) -> bool {
    write matches NodeWriteView::SaveOutbox { outbox, expected } && expected
        == DatabaseRevision::Missing && outbox.state == NodeOutboxState::Pending
        && outbox.acknowledged_at is None && outbox.occurred_at == occurred_at && outbox.kind
        == event_kind(event) && outbox.entity_id == event_entity(event)
}

/// A commit saves one service and announces one event, and writes nothing else.
pub open spec fn saves_service(
    commit: NodeCommitView<ModelServiceView>,
    expected: DatabaseRevision,
    event: NodeManagerEvent,
) -> bool {
    &&& commit.event == event
    &&& commit.writes.len() == 2
    &&& commit.writes[0] == (NodeWriteView::SaveService { service: commit.value, expected })
    &&& announces(commit.writes[1], event, commit.value.timestamps.updated_at)
}

/// A service changes at a later time in its intent and groups alone.
pub open spec fn changes_service(
    before: ModelServiceView,
    after: ModelServiceView,
    updated_at: UnixMilliseconds,
) -> bool {
    &&& after.service_id == before.service_id
    &&& after.logical_model == before.logical_model
    &&& after.timestamps.created_at == before.timestamps.created_at
    &&& after.timestamps.updated_at == updated_at
    &&& before.timestamps.updated_at.value <= updated_at.value
}

/// A service is created only by an active main, stopped and without groups, under an identity that
/// is not taken and for a model that no other service serves; it is stored as it was given. One that
/// is there already is answered when it is the same.
pub proof fn law_service_creation_stores_a_new_service(
    local: NodeView,
    idempotency_key: Seq<char>,
    service: ModelServiceView,
    existing: Result<Option<StoredView<ModelServiceView>>, NodeManagerError>,
    services: Result<Seq<ModelServiceView>, NodeManagerError>,
)
    ensures
        match service_creation(local, idempotency_key, service, existing, services) {
            Ok(NodeStepView::Commit(commit)) => {
                &&& local.role == NodeRole::Main && local.state == NodeState::Active
                &&& service.desired_state == ModelServiceDesiredState::Stopped
                &&& service.placement_group_ids.len() == 0
                &&& existing == Ok::<
                    Option<StoredView<ModelServiceView>>,
                    NodeManagerError,
                >(None)
                &&& services matches Ok(others) && forall|i: int|
                    0 <= i < others.len() && (#[trigger] others[i]).logical_model
                        == service.logical_model ==> others[i].desired_state
                        == ModelServiceDesiredState::Removed
                &&& commit.value == service
                &&& saves_service(
                    commit,
                    DatabaseRevision::Missing,
                    NodeManagerEvent::ModelServiceCreated { service_id: service.service_id },
                )
            },
            Ok(NodeStepView::Observed(change)) => {
                &&& existing matches Ok(Some(stored))
                &&& stored.value == service
                &&& change.value == service
                &&& change.revision == stored.revision
                &&& change.event is None
            },
            Err(_) => true,
        },
{
}

/// A group is attached only by an active main to a service that is not removed, at the revision that
/// was read: the service then holds it beside the groups that it had, and changes in nothing else.
pub proof fn law_attachment_adds_one_group(
    local: NodeView,
    idempotency_key: Seq<char>,
    current: StoredView<ModelServiceView>,
    group: PlacementGroupId,
    expected_revision: u64,
    updated_at: UnixMilliseconds,
)
    ensures
        match group_attachment(
            local,
            idempotency_key,
            current,
            group,
            expected_revision,
            updated_at,
        ) {
            Ok(NodeStepView::Commit(commit)) => {
                &&& local.role == NodeRole::Main && local.state == NodeState::Active
                &&& !current.value.placement_group_ids.contains(group)
                &&& current.value.desired_state != ModelServiceDesiredState::Removed
                &&& current.revision == expected_revision
                &&& commit.value.desired_state == current.value.desired_state
                &&& commit.value.placement_group_ids == current.value.placement_group_ids.push(
                    group,
                )
                &&& changes_service(current.value, commit.value, updated_at)
                &&& saves_service(
                    commit,
                    DatabaseRevision::Exact(current.revision),
                    NodeManagerEvent::ModelServiceUpdated {
                        service_id: current.value.service_id,
                    },
                )
            },
            Ok(NodeStepView::Observed(change)) => {
                &&& current.value.placement_group_ids.contains(group)
                &&& change.value == current.value
                &&& change.revision == current.revision
                &&& change.event is None
            },
            Err(_) => true,
        },
{
}

/// A group is detached only by an active main, at the revision that was read: the service then holds
/// every group that it had but this one, and changes in nothing else.
pub proof fn law_detachment_takes_one_group(
    local: NodeView,
    idempotency_key: Seq<char>,
    current: StoredView<ModelServiceView>,
    group: PlacementGroupId,
    expected_revision: u64,
    updated_at: UnixMilliseconds,
)
    ensures
        match group_detachment(
            local,
            idempotency_key,
            current,
            group,
            expected_revision,
            updated_at,
        ) {
            Ok(NodeStepView::Commit(commit)) => {
                &&& local.role == NodeRole::Main && local.state == NodeState::Active
                &&& current.value.placement_group_ids.contains(group)
                &&& current.revision == expected_revision
                &&& commit.value.desired_state == current.value.desired_state
                &&& forall|other: PlacementGroupId| #[trigger]
                    commit.value.placement_group_ids.contains(other) <==> other != group
                        && current.value.placement_group_ids.contains(other)
                &&& commit.value.placement_group_ids.no_duplicates()
                &&& changes_service(current.value, commit.value, updated_at)
                &&& saves_service(
                    commit,
                    DatabaseRevision::Exact(current.revision),
                    NodeManagerEvent::ModelServiceUpdated {
                        service_id: current.value.service_id,
                    },
                )
            },
            Ok(NodeStepView::Observed(change)) => {
                &&& !current.value.placement_group_ids.contains(group)
                &&& change.value == current.value
                &&& change.revision == current.revision
                &&& change.event is None
            },
            Err(_) => true,
        },
{
    let groups = current.value.placement_group_ids;
    let keep = |other: PlacementGroupId| stays(other, group);
    let left = selected(groups, keep);
    assert(remaining_groups(groups, group) == left);
    let positions = lemma_selected_picks(groups, keep);
    assert forall|other: PlacementGroupId| #[trigger] left.contains(other) <==> other != group
        && groups.contains(other) by {
        if left.contains(other) {
            let i = choose|i: int| 0 <= i < left.len() && left[i] == other;
            assert(0 <= positions[i] < groups.len());
            assert(groups[positions[i]] == other && keep(groups[positions[i]]));
        }
        if other != group && groups.contains(other) {
            let k = choose|k: int| 0 <= k < groups.len() && groups[k] == other;
            assert(keep(groups[k]));
            assert(positions.contains(k));
            let i = choose|i: int| 0 <= i < positions.len() && positions[i] == k;
            assert(left[i] == other);
        }
    }
}

/// A service takes up another intent only by an active main at the revision that was read, and never
/// again when it was removed: it runs only with groups and is removed only without, and keeps its
/// groups.
pub proof fn law_service_intent_changes_alone(
    local: NodeView,
    idempotency_key: Seq<char>,
    current: StoredView<ModelServiceView>,
    desired_state: ModelServiceDesiredState,
    expected_revision: u64,
    updated_at: UnixMilliseconds,
)
    ensures
        match service_transition(
            local,
            idempotency_key,
            current,
            desired_state,
            expected_revision,
            updated_at,
        ) {
            Ok(NodeStepView::Commit(commit)) => {
                let groups = current.value.placement_group_ids;
                &&& local.role == NodeRole::Main && local.state == NodeState::Active
                &&& current.value.desired_state != ModelServiceDesiredState::Removed
                &&& current.value.desired_state != desired_state
                &&& desired_state == ModelServiceDesiredState::Running ==> groups.len() > 0
                &&& desired_state == ModelServiceDesiredState::Removed ==> groups.len() == 0
                &&& current.revision == expected_revision
                &&& commit.value.desired_state == desired_state
                &&& commit.value.placement_group_ids == groups
                &&& changes_service(current.value, commit.value, updated_at)
                &&& saves_service(
                    commit,
                    DatabaseRevision::Exact(current.revision),
                    if desired_state == ModelServiceDesiredState::Removed {
                        NodeManagerEvent::ModelServiceRemoved {
                            service_id: current.value.service_id,
                        }
                    } else {
                        NodeManagerEvent::ModelServiceUpdated {
                            service_id: current.value.service_id,
                        }
                    },
                )
            },
            Ok(NodeStepView::Observed(change)) => {
                &&& current.value.desired_state == desired_state
                &&& change.value == current.value
                &&& change.revision == current.revision
                &&& change.event is None
            },
            Err(_) => true,
        },
{
}

/// An observation is recorded only for the local node, at the revision that was read, and when it is
/// no older than the node and the observation before it. One commit stores it, points the node at it
/// and announces it; the node changes in nothing else.
pub proof fn law_observation_is_stored_with_its_node(
    local_node_id: NodeId,
    idempotency_key: Seq<char>,
    local: StoredView<NodeView>,
    expected_local_revision: u64,
    observation: HardwareObservationView,
    stored: Result<DatabaseResultView<HardwareObservationView>, DatabaseError>,
)
    ensures
        match hardware_recording(
            local_node_id,
            idempotency_key,
            local,
            expected_local_revision,
            observation,
            stored,
        ) {
            Ok(NodeStepView::Commit(commit)) => {
                &&& observation.node_id == local_node_id
                &&& local.value.latest_hardware_observation_id != Some(observation.observation_id)
                &&& local.revision == expected_local_revision
                &&& local.value.timestamps.updated_at.value <= observation.observed_at.value
                &&& stored_observation(local_node_id, stored) matches Ok(previous)
                &&& previous matches Some(previous) ==> previous.value.observed_at.value
                    <= observation.observed_at.value
                &&& commit.value == observation
                &&& commit.writes.len() == 3
                &&& commit.writes[0] == (NodeWriteView::SaveHardware {
                    observation,
                    expected: match previous {
                        Some(previous) => DatabaseRevision::Exact(previous.revision),
                        None => DatabaseRevision::Missing,
                    },
                })
                &&& commit.writes[1] matches NodeWriteView::SaveNode { node, expected }
                &&& expected == DatabaseRevision::Exact(local.revision)
                &&& node.latest_hardware_observation_id == Some(observation.observation_id)
                &&& node.timestamps.updated_at == observation.observed_at
                &&& node.timestamps.created_at == local.value.timestamps.created_at
                &&& node == NodeView {
                    latest_hardware_observation_id: node.latest_hardware_observation_id,
                    timestamps: node.timestamps,
                    ..local.value
                }
                &&& announces(commit.writes[2], commit.event, observation.observed_at)
                &&& commit.event == (NodeManagerEvent::HardwareRecorded {
                    observation_id: observation.observation_id,
                })
            },
            Ok(NodeStepView::Observed(change)) => {
                &&& observation.node_id == local_node_id
                &&& local.value.latest_hardware_observation_id == Some(observation.observation_id)
                &&& change.value == observation
                &&& change.revision == local.revision
                &&& change.event is None
            },
            Err(_) => true,
        },
{
}

/// One step in the life of a child: a pending one is activated or removed, an active one paused or
/// lost, a paused one resumed, lost or removed, and a lost one resumed or removed. What is there
/// already may be asked for again.
pub open spec fn child_steps(
    before: NodeState,
    transition: NodeTransition,
    after: NodeState,
) -> bool {
    match transition {
        NodeTransition::Activate => after == NodeState::Active && (before == NodeState::Pending
            || before == NodeState::Active),
        NodeTransition::Resume => after == NodeState::Active && (before == NodeState::Draining
            || before == NodeState::Offline || before == NodeState::Active),
        NodeTransition::Pause => after == NodeState::Draining && (before == NodeState::Active
            || before == NodeState::Draining),
        NodeTransition::MarkOffline => after == NodeState::Offline && (before == NodeState::Active
            || before == NodeState::Draining || before == NodeState::Offline),
        NodeTransition::Remove => after == NodeState::Removed && before != NodeState::Active,
    }
}

/// A child takes a step only under an active main that is another node, at the revision that was
/// read unless it is there already, and only one that its state allows; it changes in its state and
/// time alone, and the commit announces the step.
pub proof fn law_child_takes_one_step(
    local: NodeView,
    local_node_id: NodeId,
    idempotency_key: Seq<char>,
    current: StoredView<NodeView>,
    node_id: NodeId,
    expected_revision: u64,
    transition: NodeTransition,
    updated_at: UnixMilliseconds,
)
    ensures
        child_transition(
            local,
            local_node_id,
            idempotency_key,
            current,
            node_id,
            expected_revision,
            transition,
            updated_at,
        ) matches Ok(commit) ==> {
            let node = commit.value;
            &&& local.role == NodeRole::Main && local.state == NodeState::Active
            &&& node_id != local_node_id
            &&& current.value.role == NodeRole::Child
            &&& current.revision == expected_revision || current.value.state == node.state
            &&& child_steps(current.value.state, transition, node.state)
            &&& node.timestamps.created_at == current.value.timestamps.created_at
            &&& node.timestamps.updated_at == updated_at
            &&& node == NodeView { state: node.state, timestamps: node.timestamps, ..current.value }
            &&& commit.event == match node.state {
                NodeState::Active => NodeManagerEvent::NodeActivated { node_id },
                NodeState::Draining => NodeManagerEvent::NodePaused { node_id },
                NodeState::Offline => NodeManagerEvent::NodeMarkedOffline { node_id },
                _ => NodeManagerEvent::NodeRemoved { node_id },
            }
            &&& commit.writes.len() == 2
            &&& commit.writes[0] == (NodeWriteView::SaveNode {
                node,
                expected: DatabaseRevision::Exact(expected_revision),
            })
            &&& announces(commit.writes[1], commit.event, updated_at)
        },
        // A step that the state allows is refused for no reason of its state.
        child_transition(
            local,
            local_node_id,
            idempotency_key,
            current,
            node_id,
            expected_revision,
            transition,
            updated_at,
        ) matches Err(error) ==> !(error is InvalidNodeTransition && exists|after: NodeState|
            #[trigger] child_steps(current.value.state, transition, after)),
{
}

/// A commit saves one operation and announces one event, and writes nothing else.
pub open spec fn saves_operation(
    commit: NodeCommitView<OperationView>,
    expected: DatabaseRevision,
    event: NodeManagerEvent,
) -> bool {
    &&& commit.event == event
    &&& commit.writes.len() == 2
    &&& commit.writes[0] == (NodeWriteView::SaveOperation {
        saved_operation: commit.value,
        expected,
    })
    &&& announces(commit.writes[1], event, commit.value.timestamps.updated_at)
}

/// An operation begins pending, under an identity that is not taken.
pub proof fn law_operation_begins_pending(
    idempotency_key: Seq<char>,
    operation_id: OperationId,
    kind: OperationKind,
    target: OperationTarget,
    created_at: UnixMilliseconds,
)
    ensures
        ({
            let commit = operation_beginning(
                idempotency_key,
                operation_id,
                kind,
                target,
                created_at,
            );
            &&& commit.value.operation_id == operation_id
            &&& commit.value.kind == kind
            &&& commit.value.target == target
            &&& commit.value.state == OperationState::Pending
            &&& commit.value.failure is None
            &&& commit.value.completed_at is None
            &&& commit.value.timestamps.created_at == created_at
            &&& commit.value.timestamps.updated_at == created_at
            &&& saves_operation(
                commit,
                DatabaseRevision::Missing,
                NodeManagerEvent::OperationBegan { operation_id },
            )
        }),
{
}

/// An operation is started only when it is pending, and one that runs is left as it is: it runs
/// afterwards, and is otherwise the same.
pub proof fn law_operation_starts_once(
    idempotency_key: Seq<char>,
    operation_id: OperationId,
    current: OperationView,
    expected_revision: u64,
    started_at: UnixMilliseconds,
)
    ensures
        operation_starting(
            idempotency_key,
            operation_id,
            current,
            expected_revision,
            started_at,
        ) matches Ok(commit) ==> {
            &&& current.state == OperationState::Pending || commit.value == current
            &&& commit.value.state == OperationState::Running
            &&& commit.value.kind == current.kind
            &&& commit.value.target == current.target
            &&& commit.value.timestamps.created_at == current.timestamps.created_at
            &&& current.state == OperationState::Pending ==> commit.value.timestamps.updated_at
                == started_at && commit.value.operation_id == operation_id
                && commit.value.completed_at is None && commit.value.failure is None
            &&& saves_operation(
                commit,
                DatabaseRevision::Exact(expected_revision),
                NodeManagerEvent::OperationStarted { operation_id },
            )
        },
{
}

/// An operation ends as it is told and with the failure that it is told. It succeeds only when it
/// was running, and one that ended so is left as it is; one that ended otherwise is refused.
pub proof fn law_operation_ends_once(
    idempotency_key: Seq<char>,
    operation_id: OperationId,
    current: OperationView,
    expected_revision: u64,
    completion: OperationCompletionView,
    completed_at: UnixMilliseconds,
)
    ensures
        operation_completing(
            idempotency_key,
            operation_id,
            current,
            expected_revision,
            completion,
            completed_at,
        ) matches Ok(commit) ==> {
            let fresh = current.state == OperationState::Pending || current.state
                == OperationState::Running;
            &&& fresh || commit.value == current
            &&& completion is Succeeded ==> current.state != OperationState::Pending
            &&& commit.value.state == match completion {
                OperationCompletionView::Succeeded => OperationState::Succeeded,
                OperationCompletionView::Failed(_) => OperationState::Failed,
                OperationCompletionView::Cancelled => OperationState::Cancelled,
            }
            &&& commit.value.kind == current.kind
            &&& commit.value.target == current.target
            &&& commit.value.timestamps.created_at == current.timestamps.created_at
            &&& fresh ==> {
                &&& commit.value.operation_id == operation_id
                &&& commit.value.timestamps.updated_at == completed_at
                &&& commit.value.completed_at == Some(completed_at)
                &&& commit.value.failure == match completion {
                    OperationCompletionView::Failed(failure) => Some(failure),
                    _ => None,
                }
            }
            &&& saves_operation(
                commit,
                DatabaseRevision::Exact(expected_revision),
                match completion {
                    OperationCompletionView::Succeeded => NodeManagerEvent::OperationSucceeded {
                        operation_id,
                    },
                    OperationCompletionView::Failed(_) => NodeManagerEvent::OperationFailed {
                        operation_id,
                    },
                    OperationCompletionView::Cancelled => NodeManagerEvent::OperationCancelled {
                        operation_id,
                    },
                },
            )
        },
{
}

// ---------------------------------------------------------------------------
// Authority
// ---------------------------------------------------------------------------

/// A node is the main and active.
pub open spec fn leads(node: NodeView) -> bool {
    node.role == NodeRole::Main && node.state == NodeState::Active
}

/// A topology has an authority exactly when one of its nodes leads and no other does, and that node
/// is the authority.
pub proof fn law_authority_is_the_only_leader(stored: Seq<StoredView<NodeView>>)
    ensures
        sole_active_main(stored) matches Ok(main) ==> exists|k: int|
            0 <= k < stored.len() && (#[trigger] stored[k]) == main && leads(main.value) && forall|
                other: int,
            |
                0 <= other < stored.len() && other != k ==> !leads(
                    (#[trigger] stored[other]).value,
                ),
        sole_active_main(stored) is Err ==> forall|k: int|
            0 <= k < stored.len() && leads((#[trigger] stored[k]).value) ==> exists|other: int|
                0 <= other < stored.len() && other != k && leads((#[trigger] stored[other]).value),
{
    let keep = |node: StoredView<NodeView>| node.value.is_active_main();
    let mains = active_mains(stored);
    assert(mains == selected(stored, keep));
    let positions = lemma_selected_picks(stored, keep);
    if sole_active_main(stored) is Ok {
        let k = positions[0];
        assert(stored[k] == mains[0] && keep(stored[k]));
        assert forall|other: int| 0 <= other < stored.len() && other != k implies !leads(
            (#[trigger] stored[other]).value,
        ) by {
            if leads(stored[other].value) {
                assert(keep(stored[other]));
                assert(positions.contains(other));
            }
        }
    } else {
        assert forall|k: int|
            0 <= k < stored.len() && leads((#[trigger] stored[k]).value) implies exists|other: int|
            0 <= other < stored.len() && other != k && leads((#[trigger] stored[other]).value) by {
            assert(keep(stored[k]));
            assert(positions.contains(k));
            assert(mains.len() >= 2);
            let other = if positions[0] == k {
                positions[1]
            } else {
                positions[0]
            };
            assert(positions[0] < positions[1]);
            assert(keep(stored[other]));
            assert(leads(stored[other].value));
        }
    }
}

/// A role is changed only when the change was proved ready: the local node is then active in the
/// wanted role and otherwise the same, one commit stores it at the revision that was expected
/// together with its counterpart, and announces the new role.
pub proof fn law_role_commit_changes_the_role_alone(
    change: RoleChangeView,
    proof_result: Result<(), NodeManagerError>,
    idempotency_key: Seq<char>,
    expected_local_revision: u64,
    changed_at: UnixMilliseconds,
)
    ensures
        role_commit(
            change,
            proof_result,
            idempotency_key,
            expected_local_revision,
            changed_at,
        ) matches Ok(commit) ==> {
            let node = commit.value;
            &&& proof_result is Ok
            &&& node.role == change.target
            &&& node.state == NodeState::Active
            &&& change.local.timestamps.updated_at.value <= changed_at.value
            &&& node.timestamps.updated_at == changed_at
            &&& node.timestamps.created_at == change.local.timestamps.created_at
            &&& node == NodeView {
                role: node.role,
                state: node.state,
                timestamps: node.timestamps,
                ..change.local
            }
            &&& commit.event == (NodeManagerEvent::LocalRoleChanged {
                node_id: change.local.identity.node_id,
                role: change.target,
            })
            &&& commit.writes.len() == 3
            &&& commit.writes[0] == (NodeWriteView::SaveNode {
                node,
                expected: DatabaseRevision::Exact(expected_local_revision),
            })
            &&& match commit.writes[1] {
                NodeWriteView::SaveNode { node: counterpart, expected } => {
                    &&& change.counterpart != Counterpart::Deleted
                    &&& expected == change.authority_revision
                    &&& counterpart.identity == change.authority.identity
                    &&& change.counterpart == Counterpart::Saved ==> counterpart
                        == change.authority
                    &&& change.counterpart == Counterpart::Retired ==> counterpart.state
                        == NodeState::Removed && counterpart.timestamps.updated_at == changed_at
                },
                NodeWriteView::DeleteNode { node_id, expected } => {
                    &&& change.counterpart == Counterpart::Deleted
                    &&& expected == change.authority_revision
                    &&& node_id == change.authority.identity.node_id
                },
                _ => false,
            }
            &&& announces(commit.writes[2], commit.event, changed_at)
        },
{
}

/// A change of role starts from an active node in the other role: a main becomes a child only while
/// it is the authority and under another leader, and a child becomes the main only in place of
/// another authority. A role that is there already is answered as it is stored.
pub proof fn law_role_step_starts_from_the_other_role(
    local: StoredView<NodeView>,
    transition: LocalNodeRoleTransitionView,
    existing: Result<Option<StoredView<NodeView>>, NodeManagerError>,
    topology: Result<Seq<StoredView<NodeView>>, NodeManagerError>,
)
    ensures
        match local_role_step(local, transition, existing, topology) {
            Ok(RoleStepView::Observed(change)) => {
                &&& local.value.state == NodeState::Active
                &&& change.value == local.value
                &&& change.revision == local.revision
                &&& change.event is None
                &&& topology matches Ok(nodes)
                &&& sole_active_main(nodes) matches Ok(main)
                &&& match transition {
                    LocalNodeRoleTransitionView::BecomeMain => local.value.role == NodeRole::Main
                        && main.value.identity.node_id == local.value.identity.node_id,
                    LocalNodeRoleTransitionView::BecomeChild { main: wanted } => local.value.role
                        == NodeRole::Child && main.value.identity == wanted.identity,
                }
            },
            Ok(RoleStepView::Change(change)) => {
                &&& local.value.state == NodeState::Active
                &&& change.local == local.value
                &&& topology matches Ok(nodes)
                &&& sole_active_main(nodes) matches Ok(main)
                &&& change.authority.identity.node_id != local.value.identity.node_id
                &&& match transition {
                    LocalNodeRoleTransitionView::BecomeMain => {
                        &&& local.value.role == NodeRole::Child
                        &&& change.target == NodeRole::Main
                        &&& change.authority == main.value
                        &&& change.authority_revision == DatabaseRevision::Exact(main.revision)
                        &&& change.counterpart == Counterpart::Retired
                    },
                    LocalNodeRoleTransitionView::BecomeChild { main: wanted } => {
                        &&& local.value.role == NodeRole::Main
                        &&& main.value.identity.node_id == local.value.identity.node_id
                        &&& change.target == NodeRole::Child
                        &&& leads(wanted)
                        &&& leads(change.authority)
                        &&& change.authority.identity == wanted.identity
                        &&& change.counterpart == Counterpart::Saved
                        &&& change.authority_revision == match existing {
                            Ok(Some(stored)) => DatabaseRevision::Exact(stored.revision),
                            _ => DatabaseRevision::Missing,
                        }
                    },
                }
            },
            Err(_) => true,
        },
{
}

// ---------------------------------------------------------------------------
// Outbox
// ---------------------------------------------------------------------------

/// The events that are pending.
pub open spec fn awaits_delivery() -> spec_fn(VersionedNodeOutboxEventView) -> bool {
    |event: VersionedNodeOutboxEventView| event.event.state == NodeOutboxState::Pending
}

/// The events that await delivery are exactly those that are pending, in order and as they are.
pub proof fn law_pending_events_are_all_delivered(events: Seq<VersionedNodeOutboxEventView>)
    ensures
        exists|positions: Seq<int>| #[trigger]
            picks(events, outbox_pending(events), positions, awaits_delivery()),
{
    let keep = |event: VersionedNodeOutboxEventView| event.event.state == NodeOutboxState::Pending;
    let positions = lemma_selected_picks(events, keep);
    assert(outbox_pending(events) == selected(events, keep));
    assert forall|event: VersionedNodeOutboxEventView| #[trigger]
        keep(event) == awaits_delivery()(event) by {}
    assert(picks(events, outbox_pending(events), positions, awaits_delivery()));
}

proof fn lemma_listed(
    stored: Seq<StoredView<NodeOutboxDatabaseRecordView>>,
    at: int,
    events: Seq<VersionedNodeOutboxEventView>,
)
    requires
        0 <= at <= stored.len(),
        events.len() == at,
        forall|k: int|
            0 <= k < at ==> outbox_from(stored[k].value) == Ok::<
                NodeOutboxEventView,
                NodeManagerError,
            >((#[trigger] events[k]).event) && events[k].revision == stored[k].revision,
    ensures
        outbox_listed(stored, at, events) matches Ok(all) ==> all.len() == stored.len() && forall|
            k: int,
        |
            0 <= k < stored.len() ==> outbox_from(stored[k].value) == Ok::<
                NodeOutboxEventView,
                NodeManagerError,
            >((#[trigger] all[k]).event) && all[k].revision == stored[k].revision,
    decreases stored.len() - at,
{
    if at < stored.len() {
        if let Ok(event) = outbox_from(stored[at].value) {
            lemma_listed(
                stored,
                at + 1,
                events.push(VersionedNodeOutboxEventView { event, revision: stored[at].revision }),
            );
        }
    }
}

/// A listing holds one event for every stored record, in order, with its revision.
pub proof fn law_outbox_listing_holds_every_record(
    stored: Seq<StoredView<NodeOutboxDatabaseRecordView>>,
)
    ensures
        outbox_all(Ok(DatabaseResultView::Records(stored))) matches Ok(all) ==> all.len()
            == stored.len() && forall|k: int|
            0 <= k < stored.len() ==> outbox_from(stored[k].value) == Ok::<
                NodeOutboxEventView,
                NodeManagerError,
            >((#[trigger] all[k]).event) && all[k].revision == stored[k].revision,
{
    lemma_listed(stored, 0, Seq::empty());
}

/// An acknowledgement saves the event at the revision that was expected, acknowledged at the given
/// time and otherwise the same; one that was acknowledged before is left as it is.
pub proof fn law_acknowledgement_changes_the_state_alone(
    current: VersionedNodeOutboxEventView,
    expected_revision: u64,
    acknowledged_at: UnixMilliseconds,
)
    ensures
        match acknowledgement_step(current, expected_revision, acknowledged_at) {
            Ok(OutboxStepView::Observed(event)) => event == current && current.event.state
                == NodeOutboxState::Acknowledged,
            Ok(OutboxStepView::Save { event, expected }) => {
                &&& current.event.state == NodeOutboxState::Pending
                &&& expected == DatabaseRevision::Exact(expected_revision)
                &&& event.state == NodeOutboxState::Acknowledged
                &&& event.acknowledged_at == Some(acknowledged_at)
                &&& event.occurred_at.value <= acknowledged_at.value
                &&& event.event_id == current.event.event_id
                &&& event.kind == current.event.kind
                &&& event.entity_id == current.event.entity_id
                &&& event.occurred_at == current.event.occurred_at
            },
            Err(_) => current.event.state == NodeOutboxState::Pending,
        },
{
}

} // verus!
