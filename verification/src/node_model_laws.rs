//! What holds of model commands whatever the ports answer.

use vstd::prelude::*;

use crate::entity::{
    ModelServiceDesiredState, ModelServiceView, PlacementAssignment, PlacementGroupState,
    PlacementRecordView, PlacementRequestView, RuntimeInstallationView,
};
use crate::identity::{
    sorted_ids, ModelServiceId, NodeId, OperationId, PlacementGroupId, RuntimeInstallationId,
};
use crate::node_model_compensation::{
    all_retained_restored, any_initial_running, any_retained_running, compensated,
    empty_service_removed, group_detached_if_readable, group_undone, initial_resettled,
    install_compensated, intent, replacements_removed, restoration_staged, retained_nodes_read,
    retained_read, retained_rebuilt, retained_restored, staged_undone,
};
use crate::node_model_contract::{
    planned_restoration_group, receipt_key, retained_group, InitialGroupState, NodeModelAction,
    NodeModelCommandIdentityView, NodeModelCommandResultView, NodeModelError,
    NodeModelInstallGroupView, NodeModelInstallRequestView, NodeModelJournalState,
    NodeModelJournalView, NodeModelRemovalRetention, NodeModelRemoveRequestView,
    NodeModelRetainedGroupView, NodeModelRetainedNode, NodeModelRuntimeDisposition, NodeModelRuntimeLogRequestView,
    NodeModelRuntimeReceiptView, NodeModelUpdateRequestView, VersionedNodeModelJournalView,
};
use crate::node_model_coordinator::{
    already_succeeded, failure_settled, logs_projected, resulted, resumed, rollback_previewed,
    runtime_logs_read, service_groups_read, service_installations_read, service_projected,
    services_listed, services_projected, updated,
};
use crate::node_model_execution::{candidate_selected, other_receipts, receipts_with};
use crate::node_model_groups::{
    completed, created_installation, created_retired, from_placement, from_runtime, group_attached,
    group_detached, group_recovered, group_released, group_running, group_stopped, redacted,
    required, runtime_referenced, runtime_retired, service_in_state, settled,
};
use crate::node_model_planning::{
    existing_prepared, groups_compared, groups_read, groups_retained, install_prepared,
    journal_prepared, no_parts, pairs_found, pairs_recorded, placements_compared, predecessor_found,
    previous_checked, previous_read, removal_selected, remove_prepared, retained_assignments,
    retained_source, rollback_planned, rollback_prepared, states_read, update_planned,
    update_prepared, RemovalView, RollbackPairView, RollbackPlanView, UpdatePlanView,
};
use crate::node_model_world::{NodeModelCall, NodeModelWorld};
use crate::sequence::{
    is_strictly_sorted, key_le, key_lt, lemma_selected_members, lemma_stable_sort, selected,
};

verus! {

// ---------------------------------------------------------------------------
// Traces
// ---------------------------------------------------------------------------

/// The later world only adds calls of one kind to the earlier one.
pub open spec fn only(
    before: NodeModelWorld,
    after: NodeModelWorld,
    allowed: spec_fn(NodeModelCall) -> bool,
) -> bool {
    &&& after.script == before.script
    &&& before.calls.len() <= after.calls.len()
    &&& forall|i: int| 0 <= i < before.calls.len() ==> after.calls[i] == before.calls[i]
    &&& forall|i: int|
        before.calls.len() <= i < after.calls.len() ==> allowed(#[trigger] after.calls[i])
}

/// The calls that change nothing.
pub open spec fn reads() -> spec_fn(NodeModelCall) -> bool {
    |call: NodeModelCall| !call.mutates()
}

/// The later world only reads.
pub open spec fn only_reads(before: NodeModelWorld, after: NodeModelWorld) -> bool {
    only(before, after, reads())
}

pub(crate) proof fn join(
    first: NodeModelWorld,
    second: NodeModelWorld,
    third: NodeModelWorld,
    allowed: spec_fn(NodeModelCall) -> bool,
)
    requires
        only(first, second, allowed),
        only(second, third, allowed),
    ensures
        only(first, third, allowed),
{
    assert forall|i: int| 0 <= i < first.calls.len() implies third.calls[i] == first.calls[i] by {
        assert(second.calls[i] == first.calls[i]);
    }
    assert forall|i: int| first.calls.len() <= i < third.calls.len() implies allowed(
        #[trigger] third.calls[i],
    ) by {
        if i < second.calls.len() {
            assert(allowed(second.calls[i]));
        }
    }
}

// ---------------------------------------------------------------------------
// Projections and previews change nothing
// ---------------------------------------------------------------------------

proof fn groups_read_reads(
    world: NodeModelWorld,
    groups: Seq<PlacementGroupId>,
    at: int,
    records: Seq<PlacementRecordView>,
)
    ensures
        only_reads(world, groups_read(world, groups, at, records).0),
    decreases groups.len() - at,
{
    if 0 <= at < groups.len() {
        let (next, record) = required(from_placement(world.group_record(groups[at])));
        if let Ok(record) = record {
            groups_read_reads(next, groups, at + 1, records.push(record));
            join(
                world,
                next,
                groups_read(next, groups, at + 1, records.push(record)).0,
                reads(),
            );
        }
    }
}

proof fn predecessor_reads(
    world: NodeModelWorld,
    current: PlacementRecordView,
    history: Seq<VersionedNodeModelJournalView>,
    at: int,
)
    ensures
        only_reads(world, predecessor_found(world, current, history, at).0),
    decreases history.len() - at,
{
    if 0 <= at < history.len() {
        match retained_source(history[at].journal, current.group.placement_group_id) {
            None => {
                predecessor_reads(world, current, history, at + 1);
            },
            Some(source) => {
                let (next, record) = world.group_record(source);
                predecessor_reads(next, current, history, at + 1);
                join(world, next, predecessor_found(next, current, history, at + 1).0, reads());
            },
        }
    }
}

proof fn previous_reads(
    world: NodeModelWorld,
    previous: PlacementRecordView,
    at: int,
    installations: Seq<RuntimeInstallationView>,
)
    ensures
        only_reads(world, previous_read(world, previous, at, installations).0),
    decreases previous.placements.len() - at,
{
    if 0 <= at < previous.placements.len() {
        let (next, installation) = required(
            from_runtime(world.installation(previous.placements[at].runtime_installation_id)),
        );
        if let Ok(installation) = installation {
            previous_reads(next, previous, at + 1, installations.push(installation));
            join(
                world,
                next,
                previous_read(next, previous, at + 1, installations.push(installation)).0,
                reads(),
            );
        }
    }
}

proof fn pairs_read(
    world: NodeModelWorld,
    current: Seq<PlacementRecordView>,
    history: Seq<VersionedNodeModelJournalView>,
    at: int,
    pairs: Seq<RollbackPairView>,
)
    ensures
        only_reads(world, pairs_found(world, current, history, at, pairs).0),
    decreases current.len() - at,
{
    if 0 <= at < current.len() {
        predecessor_reads(world, current[at], history, 0);
        let (second, previous) = predecessor_found(world, current[at], history, 0);
        if let Some(previous) = previous {
            previous_reads(second, previous, 0, Seq::empty());
            let (third, checked) = previous_checked(second, previous);
            join(world, second, third, reads());
            let longer = pairs.push(RollbackPairView { current: current[at], previous });
            pairs_read(third, current, history, at + 1, longer);
            join(world, third, pairs_found(third, current, history, at + 1, longer).0, reads());
        }
    }
}

proof fn rollback_plan_reads(
    world: NodeModelWorld,
    service_id: ModelServiceId,
    target_id: Option<Seq<char>>,
)
    ensures
        only_reads(world, rollback_planned(world, service_id, target_id).0),
{
    let (second, service) = redacted(world.service(service_id));
    if let Ok(service) = service {
        if service.service.desired_state != ModelServiceDesiredState::Removed {
            let groups = service.service.placement_group_ids;
            groups_read_reads(second, groups, 0, Seq::empty());
            let (third, records) = groups_read(second, groups, 0, Seq::empty());
            join(world, second, third, reads());
            if let Ok(records) = records {
                let current = selected(
                    records,
                    |record: PlacementRecordView|
                        crate::node_model_planning::in_target(record, target_id),
                );
                if current.len() > 0 {
                    let (fourth, journals) = third.all_journals();
                    join(world, third, fourth, reads());
                    if let Ok(journals) = journals {
                        let history = crate::node_model_planning::replacement_history(
                            journals,
                            service_id,
                        );
                        pairs_read(fourth, current, history, 0, Seq::empty());
                        join(
                            world,
                            fourth,
                            pairs_found(fourth, current, history, 0, Seq::empty()).0,
                            reads(),
                        );
                    }
                }
            }
        }
    }
}

/// A rollback preview creates no state and calls no provider that changes anything.
pub proof fn law_preview_changes_nothing(
    world: NodeModelWorld,
    service_id: ModelServiceId,
    target_id: Option<Seq<char>>,
)
    ensures
        only_reads(world, rollback_previewed(world, service_id, target_id).0),
{
    rollback_plan_reads(world, service_id, target_id);
}

proof fn placements_compare_reads(
    world: NodeModelWorld,
    logical_model: Seq<char>,
    explicit_candidate_id: Option<Seq<char>>,
    placements: Seq<PlacementAssignment>,
    at: int,
    nodes: Seq<NodeId>,
    changed: bool,
)
    ensures
        only_reads(
            world,
            placements_compared(
                world,
                logical_model,
                explicit_candidate_id,
                placements,
                at,
                nodes,
                changed,
            ).0,
        ),
    decreases placements.len() - at,
{
    if 0 <= at < placements.len() {
        let placement = placements[at];
        let (second, installation) = required(
            from_runtime(world.installation(placement.runtime_installation_id)),
        );
        if let Ok(installation) = installation {
            let (third, candidate) = candidate_selected(
                second,
                logical_model,
                explicit_candidate_id,
                placement.node_id,
            );
            assert(only_reads(second, third));
            join(world, second, third, reads());
            if let Ok(candidate) = candidate {
                let differs = changed || !crate::node_model_rules::candidate_installed(
                    candidate.0,
                    installation,
                );
                placements_compare_reads(
                    third,
                    logical_model,
                    explicit_candidate_id,
                    placements,
                    at + 1,
                    nodes.push(placement.node_id),
                    differs,
                );
                join(
                    world,
                    third,
                    placements_compared(
                        third,
                        logical_model,
                        explicit_candidate_id,
                        placements,
                        at + 1,
                        nodes.push(placement.node_id),
                        differs,
                    ).0,
                    reads(),
                );
            }
        }
    }
}

proof fn groups_compare_reads(
    world: NodeModelWorld,
    service: ModelServiceView,
    service_id: ModelServiceId,
    explicit_candidate_id: Option<Seq<char>>,
    at: int,
    groups: Seq<NodeModelInstallGroupView>,
    states: Seq<InitialGroupState>,
)
    ensures
        only_reads(
            world,
            groups_compared(
                world,
                service,
                service_id,
                explicit_candidate_id,
                at,
                groups,
                states,
            ).0,
        ),
    decreases service.placement_group_ids.len() - at,
{
    if 0 <= at < service.placement_group_ids.len() {
        let group_id = service.placement_group_ids[at];
        let (second, record) = required(from_placement(world.group_record(group_id)));
        if let Ok(record) = record {
            if record.group.service_id == service_id && record.group.state
                != PlacementGroupState::Removed {
                placements_compare_reads(
                    second,
                    service.logical_model,
                    explicit_candidate_id,
                    record.placements,
                    0,
                    Seq::empty(),
                    false,
                );
                let (third, compared) = placements_compared(
                    second,
                    service.logical_model,
                    explicit_candidate_id,
                    record.placements,
                    0,
                    Seq::empty(),
                    false,
                );
                join(world, second, third, reads());
                if let Ok(compared) = compared {
                    let entry = InitialGroupState {
                        placement_group_id: group_id,
                        state: record.group.state,
                    };
                    if compared.1 {
                        if let Ok(group) = crate::node_model_contract::install_group(
                            compared.0,
                            explicit_candidate_id,
                        ) {
                            groups_compare_reads(
                                third,
                                service,
                                service_id,
                                explicit_candidate_id,
                                at + 1,
                                groups.push(group),
                                states.push(entry),
                            );
                            join(
                                world,
                                third,
                                groups_compared(
                                    third,
                                    service,
                                    service_id,
                                    explicit_candidate_id,
                                    at + 1,
                                    groups.push(group),
                                    states.push(entry),
                                ).0,
                                reads(),
                            );
                        }
                    } else {
                        groups_compare_reads(
                            third,
                            service,
                            service_id,
                            explicit_candidate_id,
                            at + 1,
                            groups,
                            states,
                        );
                        join(
                            world,
                            third,
                            groups_compared(
                                third,
                                service,
                                service_id,
                                explicit_candidate_id,
                                at + 1,
                                groups,
                                states,
                            ).0,
                            reads(),
                        );
                    }
                }
            }
        }
    }
}

/// A dry-run update changes nothing.
pub proof fn law_dry_run_changes_nothing(
    world: NodeModelWorld,
    claims: Set<OperationId>,
    request: NodeModelUpdateRequestView,
)
    requires
        request.dry_run,
    ensures
        only_reads(world, updated(world, claims, request).0),
{
    let (second, existing) = world.read_journal(request.identity.operation_id);
    if existing == Ok::<Option<VersionedNodeModelJournalView>, NodeModelError>(None) {
        let (third, service) = redacted(second.service(request.service_id));
        join(world, second, third, reads());
        if let Ok(service) = service {
            if service.service.desired_state != ModelServiceDesiredState::Removed {
                groups_compare_reads(
                    third,
                    service.service,
                    request.service_id,
                    request.explicit_candidate_id,
                    0,
                    Seq::empty(),
                    Seq::empty(),
                );
                join(
                    world,
                    third,
                    update_planned(second, request.service_id, request.explicit_candidate_id).0,
                    reads(),
                );
            }
        }
    }
}

proof fn service_groups_reads(
    world: NodeModelWorld,
    service: ModelServiceView,
    at: int,
    records: Seq<PlacementRecordView>,
    installations: Seq<RuntimeInstallationId>,
)
    ensures
        only_reads(world, service_groups_read(world, service, at, records, installations).0),
    decreases service.placement_group_ids.len() - at,
{
    if 0 <= at < service.placement_group_ids.len() {
        let (next, record) = required(
            from_placement(world.group_record(service.placement_group_ids[at])),
        );
        if let Ok(record) = record {
            let more = installations + crate::node_model_coordinator::assigned_installations(
                record,
            );
            service_groups_reads(next, service, at + 1, records.push(record), more);
            join(
                world,
                next,
                service_groups_read(next, service, at + 1, records.push(record), more).0,
                reads(),
            );
        }
    }
}

proof fn service_installations_reads(
    world: NodeModelWorld,
    logical_model: Seq<char>,
    ids: Seq<RuntimeInstallationId>,
    at: int,
    installations: Seq<RuntimeInstallationView>,
)
    ensures
        only_reads(
            world,
            service_installations_read(world, logical_model, ids, at, installations).0,
        ),
    decreases ids.len() - at,
{
    if 0 <= at < ids.len() {
        let (next, installation) = required(from_runtime(world.installation(ids[at])));
        if let Ok(installation) = installation {
            let more = installations.push(installation);
            service_installations_reads(next, logical_model, ids, at + 1, more);
            join(
                world,
                next,
                service_installations_read(next, logical_model, ids, at + 1, more).0,
                reads(),
            );
        }
    }
}

proof fn services_project_reads(
    world: NodeModelWorld,
    services: Seq<ModelServiceView>,
    at: int,
    projections: Seq<crate::node_model_contract::NodeModelServiceProjectionView>,
)
    ensures
        only_reads(world, services_projected(world, services, at, projections).0),
    decreases services.len() - at,
{
    if 0 <= at < services.len() {
        let service = services[at];
        service_groups_reads(world, service, 0, Seq::empty(), Seq::empty());
        let (second, groups) = service_groups_read(world, service, 0, Seq::empty(), Seq::empty());
        if let Ok(groups) = groups {
            let ids = sorted_ids(crate::sequence::distinct(groups.1));
            service_installations_reads(second, service.logical_model, ids, 0, Seq::empty());
            join(
                world,
                second,
                service_installations_read(second, service.logical_model, ids, 0, Seq::empty()).0,
                reads(),
            );
        }
        let (third, projection) = service_projected(world, service);
        assert(only_reads(world, third));
        if let Ok(projection) = projection {
            services_project_reads(third, services, at + 1, projections.push(projection));
            join(
                world,
                third,
                services_projected(third, services, at + 1, projections.push(projection)).0,
                reads(),
            );
        }
    }
}

/// Listing services changes nothing.
pub proof fn law_listing_changes_nothing(world: NodeModelWorld)
    ensures
        only_reads(world, services_listed(world).0),
{
    let (second, services) = redacted(world.services());
    if let Ok(services) = services {
        services_project_reads(second, services, 0, Seq::empty());
        join(world, second, services_projected(second, services, 0, Seq::empty()).0, reads());
    }
}

/// Reading lifecycle history or runtime logs changes nothing.
pub proof fn law_logs_change_nothing(
    world: NodeModelWorld,
    service_id: ModelServiceId,
    request: NodeModelRuntimeLogRequestView,
)
    ensures
        only_reads(world, logs_projected(world, service_id).0),
        only_reads(world, runtime_logs_read(world, request).0),
{
}

// ---------------------------------------------------------------------------
// Replays and refusals
// ---------------------------------------------------------------------------

/// A command whose cleanup is pending is refused before any call is made.
pub proof fn law_pending_cleanup_is_refused(
    world: NodeModelWorld,
    claims: Set<OperationId>,
    journal: VersionedNodeModelJournalView,
    compensate_on_failure: bool,
)
    requires
        journal.journal.state == NodeModelJournalState::CleanupPending,
    ensures
        resumed(world, claims, journal, compensate_on_failure) == (
            world,
            Err::<NodeModelCommandResultView, NodeModelError>(NodeModelError::RecoveryRequired),
        ),
{
}

/// A command that another execution has claimed changes nothing.
pub proof fn law_claimed_command_changes_nothing(
    world: NodeModelWorld,
    claims: Set<OperationId>,
    journal: VersionedNodeModelJournalView,
    compensate_on_failure: bool,
)
    requires
        claims.contains(journal.journal.operation_id),
    ensures
        only_reads(world, resumed(world, claims, journal, compensate_on_failure).0),
        journal.journal.state != NodeModelJournalState::Succeeded && journal.journal.state
            != NodeModelJournalState::CleanupPending ==> resumed(
            world,
            claims,
            journal,
            compensate_on_failure,
        ).1 == Err::<NodeModelCommandResultView, NodeModelError>(NodeModelError::JournalConflict),
{
    let (second, replayed) = already_succeeded(world, journal.journal);
    assert(only_reads(world, second));
    let (third, result) = resulted(second, journal);
    assert(only_reads(second, third));
    join(world, second, third, reads());
}

/// A command whose success is reported is answered again from durable state, without any change.
pub proof fn law_success_is_replayed(
    world: NodeModelWorld,
    claims: Set<OperationId>,
    journal: VersionedNodeModelJournalView,
    compensate_on_failure: bool,
)
    requires
        already_succeeded(world, journal.journal).1 == Ok::<bool, NodeModelError>(true),
    ensures
        only_reads(world, resumed(world, claims, journal, compensate_on_failure).0),
        resumed(world, claims, journal, compensate_on_failure).1 matches Ok(result)
            ==> result.journal == journal,
{
    let (second, replayed) = already_succeeded(world, journal.journal);
    assert(only_reads(world, second));
    let (third, result) = resulted(second, journal);
    assert(only_reads(second, third));
    join(world, second, third, reads());
}

/// A failed execution is never answered with success, whatever its compensation gives.
pub proof fn law_failure_is_reported(
    world: NodeModelWorld,
    operation_id: OperationId,
    failure: NodeModelError,
)
    ensures
        failure_settled(world, operation_id, failure).1 is Err,
{
}

// ---------------------------------------------------------------------------
// The journal comes first
// ---------------------------------------------------------------------------

/// The calls that change nothing but the creation of one journal.
pub open spec fn reads_or_creation() -> spec_fn(NodeModelCall) -> bool {
    |call: NodeModelCall| !call.mutates() || call is CreateJournal
}

/// An install command is committed before anything else is changed.
pub proof fn law_install_commits_first(world: NodeModelWorld, request: NodeModelInstallRequestView)
    ensures
        only(world, install_prepared(world, request).0, reads_or_creation()),
{
}

proof fn states_reads(
    world: NodeModelWorld,
    service_id: ModelServiceId,
    groups: Seq<PlacementGroupId>,
    at: int,
    states: Seq<InitialGroupState>,
)
    ensures
        only(world, states_read(world, service_id, groups, at, states).0, reads_or_creation()),
    decreases groups.len() - at,
{
    if 0 <= at < groups.len() {
        let (next, record) = required(from_placement(world.group_record(groups[at])));
        if let Ok(record) = record {
            let more = states.push(
                InitialGroupState { placement_group_id: groups[at], state: record.group.state },
            );
            states_reads(next, service_id, groups, at + 1, more);
            join(
                world,
                next,
                states_read(next, service_id, groups, at + 1, more).0,
                reads_or_creation(),
            );
        }
    }
}

/// A lifecycle command is committed before anything else is changed.
pub proof fn law_lifecycle_commits_first(
    world: NodeModelWorld,
    identity: NodeModelCommandIdentityView,
    service_id: ModelServiceId,
    action: NodeModelAction,
)
    ensures
        only(
            world,
            existing_prepared(world, identity, service_id, action).0,
            reads_or_creation(),
        ),
{
    let (second, existing) = world.read_journal(identity.operation_id);
    let (third, service) = redacted(second.service(service_id));
    join(world, second, third, reads_or_creation());
    if let Ok(service) = service {
        let groups = service.service.placement_group_ids;
        states_reads(third, service_id, groups, 0, Seq::empty());
        let (fourth, states) = states_read(third, service_id, groups, 0, Seq::empty());
        join(world, third, fourth, reads_or_creation());
        let (fifth, now) = fourth.now();
        join(world, fourth, fifth, reads_or_creation());
        if let (Ok(states), Ok(now)) = (states, now) {
            let journal = NodeModelJournalView {
                placement_group_ids: groups,
                initial_group_states: states,
                ..journal_prepared(
                    identity,
                    action,
                    service_id,
                    service.service.logical_model,
                    now,
                )
            };
            join(world, fifth, fifth.create_journal(journal).0, reads_or_creation());
        }
    }
}

proof fn removal_reads(
    world: NodeModelWorld,
    request: NodeModelRemoveRequestView,
    groups: Seq<PlacementGroupId>,
    at: int,
    removal: RemovalView,
)
    ensures
        only(
            world,
            removal_selected(world, request, groups, at, removal).0,
            reads_or_creation(),
        ),
    decreases groups.len() - at,
{
    if 0 <= at < groups.len() {
        let (next, record) = required(from_placement(world.group_record(groups[at])));
        if let Ok(record) = record {
            if record.group.service_id == request.service_id {
                let matched = match request.selection {
                    crate::node_model_contract::NodeModelRemovalSelectionView::All => {
                        removal.matched
                    },
                    crate::node_model_contract::NodeModelRemovalSelectionView::Nodes(nodes) => {
                        removal.matched + crate::node_model_planning::matched_nodes(record, nodes)
                    },
                };
                let more = if crate::node_model_planning::record_selected(
                    record,
                    request.selection,
                ) {
                    RemovalView {
                        groups: removal.groups.push(groups[at]),
                        states: removal.states.push(
                            InitialGroupState {
                                placement_group_id: groups[at],
                                state: record.group.state,
                            },
                        ),
                        matched,
                    }
                } else {
                    RemovalView { matched, ..removal }
                };
                removal_reads(next, request, groups, at + 1, more);
                join(
                    world,
                    next,
                    removal_selected(next, request, groups, at + 1, more).0,
                    reads_or_creation(),
                );
            }
        }
    }
}

/// A removal command is committed before anything else is changed.
pub proof fn law_removal_commits_first(world: NodeModelWorld, request: NodeModelRemoveRequestView)
    ensures
        only(world, remove_prepared(world, request).0, reads_or_creation()),
{
    let (second, existing) = world.read_journal(request.identity.operation_id);
    let (third, service) = redacted(second.service(request.service_id));
    join(world, second, third, reads_or_creation());
    if let Ok(service) = service {
        let groups = service.service.placement_group_ids;
        let none = crate::node_model_planning::no_removal();
        removal_reads(third, request, groups, 0, none);
        let (fourth, removal) = removal_selected(third, request, groups, 0, none);
        join(world, third, fourth, reads_or_creation());
        if let Ok(removal) = removal {
            let (fifth, committed) = crate::node_model_planning::removal_committed(
                fourth,
                request,
                service.service.logical_model,
                removal,
            );
            assert(only(fourth, fifth, reads_or_creation()));
            join(world, fourth, fifth, reads_or_creation());
        }
    }
}

proof fn retained_reads(
    world: NodeModelWorld,
    operation_id: OperationId,
    states: Seq<InitialGroupState>,
    at: int,
    groups: Seq<NodeModelRetainedGroupView>,
)
    ensures
        only(
            world,
            groups_retained(world, operation_id, states, at, groups).0,
            reads_or_creation(),
        ),
    decreases states.len() - at,
{
    if 0 <= at < states.len() {
        let (next, record) = required(
            from_placement(world.group_record(states[at].placement_group_id)),
        );
        if let Ok(record) = record {
            if let Ok(group) = retained_group(
                states[at].placement_group_id,
                planned_restoration_group(operation_id, at as nat),
                states[at].state,
                retained_assignments(record.placements),
            ) {
                let more = groups.push(group);
                retained_reads(next, operation_id, states, at + 1, more);
                join(
                    world,
                    next,
                    groups_retained(next, operation_id, states, at + 1, more).0,
                    reads_or_creation(),
                );
            }
        }
    }
}

/// An update command is committed before anything else is changed.
pub proof fn law_update_commits_first(
    world: NodeModelWorld,
    request: NodeModelUpdateRequestView,
    plan: UpdatePlanView,
)
    ensures
        only(world, update_prepared(world, request, plan).0, reads_or_creation()),
{
    let operation_id = request.identity.operation_id;
    let (second, existing) = world.read_journal(operation_id);
    retained_reads(second, operation_id, plan.states, 0, Seq::empty());
    let (third, retained) = groups_retained(second, operation_id, plan.states, 0, Seq::empty());
    join(world, second, third, reads_or_creation());
    let (fourth, now) = third.now();
    join(world, third, fourth, reads_or_creation());
    let (last, prepared) = update_prepared(world, request, plan);
    if last != second && last != third && last != fourth {
        join(world, fourth, last, reads_or_creation());
    }
}

/// A rollback command is committed before anything else is changed.
pub proof fn law_rollback_commits_first(
    world: NodeModelWorld,
    identity: NodeModelCommandIdentityView,
    plan: RollbackPlanView,
)
    ensures
        only(world, rollback_prepared(world, identity, plan).0, reads_or_creation()),
{
    if let Ok(parts) = pairs_recorded(plan.pairs, 0, no_parts()) {
        let operation_id = identity.operation_id;
        retained_reads(world, operation_id, parts.states, 0, Seq::empty());
        let (second, retained) = groups_retained(
            world,
            operation_id,
            parts.states,
            0,
            Seq::empty(),
        );
        let (third, now) = second.now();
        join(world, second, third, reads_or_creation());
        let (last, prepared) = rollback_prepared(world, identity, plan);
        if last != second && last != third {
            join(world, third, last, reads_or_creation());
        }
    }
}

// ---------------------------------------------------------------------------
// Compensation spares what it did not create
// ---------------------------------------------------------------------------

/// Calls that remove a runtime installation.
pub open spec fn removes_runtime(
    call: NodeModelCall,
    installation_id: RuntimeInstallationId,
) -> bool {
    call == (NodeModelCall::RemoveRuntime { installation_id }) || call == (
    NodeModelCall::RemoveRuntimePreservingModels { installation_id })
}

/// Some receipt of the journal created the installation.
pub open spec fn created_in(
    receipts: Seq<NodeModelRuntimeReceiptView>,
    installation_id: RuntimeInstallationId,
) -> bool {
    exists|i: int|
        0 <= i < receipts.len() && (#[trigger] receipts[i]).disposition
            == NodeModelRuntimeDisposition::Created && receipts[i].installation_id == Some(
            installation_id,
        )
}

/// The calls that remove no runtime but one that the receipts created.
pub open spec fn spares_others(receipts: Seq<NodeModelRuntimeReceiptView>) -> spec_fn(
    NodeModelCall,
) -> bool {
    |call: NodeModelCall|
        forall|installation_id: RuntimeInstallationId|
            #![trigger removes_runtime(call, installation_id)]
            removes_runtime(call, installation_id) ==> created_in(receipts, installation_id)
}

proof fn created_retire_spares(
    world: NodeModelWorld,
    receipts: Seq<NodeModelRuntimeReceiptView>,
    left: int,
)
    requires
        left <= receipts.len(),
    ensures
        only(world, created_retired(world, receipts, left).0, spares_others(receipts)),
    decreases left,
{
    if 0 < left {
        match created_installation(receipts[left - 1]) {
            None => {
                created_retire_spares(world, receipts, left - 1);
            },
            Some(installation_id) => {
                assert(created_in(receipts, installation_id));
                let (next, result) = runtime_retired(
                    world,
                    installation_id,
                    NodeModelRemovalRetention::RemoveUnreferencedRuntimes,
                );
                let (a, referenced) = runtime_referenced(world, installation_id);
                assert(only(world, a, spares_others(receipts)));
                let (b, installation) = from_runtime(a.installation(installation_id));
                join(world, a, b, spares_others(receipts));
                let (c, change) = from_runtime(b.remove_runtime(installation_id));
                assert(only(b, c, spares_others(receipts))) by {
                    let call = NodeModelCall::RemoveRuntime { installation_id };
                    assert forall|other: RuntimeInstallationId|
                        #![trigger removes_runtime(call, other)]
                        removes_runtime(call, other) implies created_in(receipts, other) by {}
                }
                join(world, b, c, spares_others(receipts));
                assert(only(world, next, spares_others(receipts)));
                created_retire_spares(next, receipts, left - 1);
                join(
                    world,
                    next,
                    created_retired(next, receipts, left - 1).0,
                    spares_others(receipts),
                );
            },
        }
    }
}

proof fn stop_spares(
    world: NodeModelWorld,
    group: PlacementGroupId,
    receipts: Seq<NodeModelRuntimeReceiptView>,
)
    ensures
        only(world, group_stopped(world, group).0, spares_others(receipts)),
{
    let (a, record) = required(from_placement(world.group_record(group)));
    let (b, reply) = a.stop_group(group);
    join(world, a, b, spares_others(receipts));
    let (c, done) = settled(b, reply, group, PlacementGroupState::Stopped);
    assert(only(b, c, spares_others(receipts)));
    join(world, b, c, spares_others(receipts));
}

proof fn undo_spares(
    world: NodeModelWorld,
    group: PlacementGroupId,
    receipts: Seq<NodeModelRuntimeReceiptView>,
)
    ensures
        only(world, group_undone(world, group).0, spares_others(receipts)),
{
    let (a, record) = from_placement(world.group_record(group));
    if let Ok(Some(record)) = record {
        let state = record.group.state;
        stop_spares(a, group, receipts);
        let (b, stopped) = group_stopped(a, group);
        let (c, removed) = completed(from_placement(b.remove_group(group)));
        join(a, b, c, spares_others(receipts));
        assert(only(a, group_released(a, group, state).0, spares_others(receipts)));
        join(world, a, group_released(a, group, state).0, spares_others(receipts));
    }
}

proof fn staged_undo_spares(
    world: NodeModelWorld,
    journal: NodeModelJournalView,
    left: int,
    receipts: Seq<NodeModelRuntimeReceiptView>,
)
    ensures
        only(world, staged_undone(world, journal, left).0, spares_others(receipts)),
    decreases left,
{
    if 0 < left <= journal.placement_group_ids.len() {
        let group = journal.placement_group_ids[left - 1];
        undo_spares(world, group, receipts);
        let (a, undone) = group_undone(world, group);
        let (b, detached) = group_detached_if_readable(a, journal, group);
        assert(only(a, b, spares_others(receipts)));
        join(world, a, b, spares_others(receipts));
        staged_undo_spares(b, journal, left - 1, receipts);
        join(world, b, staged_undone(b, journal, left - 1).0, spares_others(receipts));
    }
}

/// Reversing an installation removes no runtime that the command had not created itself.
pub proof fn law_install_compensation_spares_reused(
    world: NodeModelWorld,
    journal: NodeModelJournalView,
)
    ensures
        only(
            world,
            install_compensated(world, journal).0,
            spares_others(journal.runtime_receipts),
        ),
{
    let receipts = journal.runtime_receipts;
    let left = journal.placement_group_ids.len() as int;
    staged_undo_spares(world, journal, left, receipts);
    let (a, undone) = staged_undone(world, journal, left);
    let (b, removed) = empty_service_removed(a, journal);
    assert(only(a, b, spares_others(receipts)));
    join(world, a, b, spares_others(receipts));
    created_retire_spares(b, receipts, receipts.len() as int);
    join(
        world,
        b,
        created_retired(b, receipts, receipts.len() as int).0,
        spares_others(receipts),
    );
}

proof fn replacements_spare(
    world: NodeModelWorld,
    journal: NodeModelJournalView,
    left: int,
    receipts: Seq<NodeModelRuntimeReceiptView>,
)
    ensures
        only(world, replacements_removed(world, journal, left).0, spares_others(receipts)),
    decreases left,
{
    if 0 < left <= journal.placement_group_ids.len() {
        let group = journal.placement_group_ids[left - 1];
        undo_spares(world, group, receipts);
        let (a, undone) = group_undone(world, group);
        let (b, detached) = group_detached(
            a,
            journal,
            group,
            crate::node_model_rules::group_phase("replacement."@, group, ".detach"@),
            false,
        );
        assert(only(a, b, spares_others(receipts)));
        join(world, a, b, spares_others(receipts));
        replacements_spare(b, journal, left - 1, receipts);
        join(world, b, replacements_removed(b, journal, left - 1).0, spares_others(receipts));
    }
}

proof fn retained_read_spares(
    world: NodeModelWorld,
    nodes: Seq<NodeModelRetainedNode>,
    at: int,
    installations: Seq<RuntimeInstallationView>,
    receipts: Seq<NodeModelRuntimeReceiptView>,
)
    ensures
        only(
            world,
            retained_nodes_read(world, nodes, at, installations).0,
            spares_others(receipts),
        ),
    decreases nodes.len() - at,
{
    if 0 <= at < nodes.len() {
        let (next, installation) = required(
            from_runtime(world.installation(nodes[at].installation_id)),
        );
        if let Ok(installation) = installation {
            let more = installations.push(installation);
            retained_read_spares(next, nodes, at + 1, more, receipts);
            join(
                world,
                next,
                retained_nodes_read(next, nodes, at + 1, more).0,
                spares_others(receipts),
            );
        }
    }
}

proof fn stage_spares(
    world: NodeModelWorld,
    group: PlacementGroupId,
    request: PlacementRequestView,
    receipts: Seq<NodeModelRuntimeReceiptView>,
)
    ensures
        only(world, restoration_staged(world, group, request).0, spares_others(receipts)),
{
    let (a, record) = from_placement(world.group_record(group));
    let (b, reply) = a.stage_group(request);
    join(world, a, b, spares_others(receipts));
    let (c, observed) = from_placement(b.group_record(group));
    join(world, b, c, spares_others(receipts));
}

proof fn rebuild_spares(
    world: NodeModelWorld,
    journal: NodeModelJournalView,
    at: int,
    receipts: Seq<NodeModelRuntimeReceiptView>,
)
    ensures
        only(world, retained_rebuilt(world, journal, at).0, spares_others(receipts)),
{
    let retained = journal.retained_groups[at];
    let (a, source) = required(from_placement(world.group_record(retained.source_group_id)));
    retained_read_spares(a, retained.nodes, 0, Seq::empty(), receipts);
    let (b, installations) = retained_read(a, retained);
    join(world, a, b, spares_others(receipts));
    if let Ok(installations) = installations {
        let restoration = retained.restoration_group_id;
        let (c, request) = b.placement_request_for(
            journal.service_id,
            at as usize,
            restoration,
            installations,
        );
        join(world, b, c, spares_others(receipts));
        if let Ok(request) = request {
            stage_spares(c, restoration, request, receipts);
            join(
                world,
                c,
                restoration_staged(c, restoration, request).0,
                spares_others(receipts),
            );
        }
    }
}

proof fn run_spares(
    world: NodeModelWorld,
    group: PlacementGroupId,
    receipts: Seq<NodeModelRuntimeReceiptView>,
)
    ensures
        only(world, group_running(world, group).0, spares_others(receipts)),
        only(world, group_recovered(world, group, false).0, spares_others(receipts)),
{
    let (a, record) = required(from_placement(world.group_record(group)));
    let (b, reply) = a.start_group(group);
    join(world, a, b, spares_others(receipts));
    let (c, done) = settled(b, reply, group, PlacementGroupState::Running);
    assert(only(b, c, spares_others(receipts)));
    join(world, b, c, spares_others(receipts));
    let (d, answer) = a.recover_group(group, false);
    join(world, a, d, spares_others(receipts));
    let (e, finished) = settled(d, answer, group, PlacementGroupState::Running);
    assert(only(d, e, spares_others(receipts)));
    join(world, d, e, spares_others(receipts));
}

proof fn restore_spares(
    world: NodeModelWorld,
    journal: NodeModelJournalView,
    at: int,
    receipts: Seq<NodeModelRuntimeReceiptView>,
)
    ensures
        only(world, retained_restored(world, journal, at).0, spares_others(receipts)),
{
    let source = journal.retained_groups[at].source_group_id;
    rebuild_spares(world, journal, at, receipts);
    let (a, rebuilt) = retained_rebuilt(world, journal, at);
    if let Ok(group) = rebuilt {
        let (b, detached) = group_detached(
            a,
            journal,
            source,
            crate::node_model_rules::group_phase("retained."@, source, ".detach"@),
            source == group,
        );
        assert(only(a, b, spares_others(receipts)));
        join(world, a, b, spares_others(receipts));
        let (c, attached) = group_attached(
            b,
            journal,
            group,
            crate::node_model_rules::group_phase("retained."@, group, ".attach"@),
        );
        assert(only(b, c, spares_others(receipts)));
        join(world, b, c, spares_others(receipts));
        run_spares(c, group, receipts);
        stop_spares(c, group, receipts);
        join(world, c, group_running(c, group).0, spares_others(receipts));
        join(world, c, group_stopped(c, group).0, spares_others(receipts));
    }
}

proof fn restores_spare(
    world: NodeModelWorld,
    journal: NodeModelJournalView,
    at: int,
    receipts: Seq<NodeModelRuntimeReceiptView>,
)
    ensures
        only(world, all_retained_restored(world, journal, at).0, spares_others(receipts)),
    decreases journal.retained_groups.len() - at,
{
    if 0 <= at < journal.retained_groups.len() {
        restore_spares(world, journal, at, receipts);
        let (a, restored) = retained_restored(world, journal, at);
        restores_spare(a, journal, at + 1, receipts);
        join(world, a, all_retained_restored(a, journal, at + 1).0, spares_others(receipts));
    }
}

proof fn move_spares(
    world: NodeModelWorld,
    journal: NodeModelJournalView,
    name: Seq<char>,
    desired_state: ModelServiceDesiredState,
    receipts: Seq<NodeModelRuntimeReceiptView>,
)
    ensures
        only(
            world,
            service_in_state(world, journal, name, desired_state).0,
            spares_others(receipts),
        ),
{
}

proof fn resettle_spares(
    world: NodeModelWorld,
    states: Seq<InitialGroupState>,
    at: int,
    receipts: Seq<NodeModelRuntimeReceiptView>,
)
    ensures
        only(world, initial_resettled(world, states, at).0, spares_others(receipts)),
    decreases states.len() - at,
{
    if 0 <= at < states.len() {
        let group = states[at].placement_group_id;
        run_spares(world, group, receipts);
        stop_spares(world, group, receipts);
        let (a, recovered) = group_recovered(world, group, false);
        let (b, stopped) = group_stopped(world, group);
        resettle_spares(a, states, at + 1, receipts);
        resettle_spares(b, states, at + 1, receipts);
        join(world, a, initial_resettled(a, states, at + 1).0, spares_others(receipts));
        join(world, b, initial_resettled(b, states, at + 1).0, spares_others(receipts));
    }
}

/// Reversing any command removes no runtime that the command had not created itself.
pub proof fn law_compensation_spares_others(world: NodeModelWorld, journal: NodeModelJournalView)
    ensures
        only(world, compensated(world, journal).0, spares_others(journal.runtime_receipts)),
{
    let receipts = journal.runtime_receipts;
    let left = journal.placement_group_ids.len() as int;
    law_install_compensation_spares_reused(world, journal);
    replacements_spare(world, journal, left, receipts);
    let (a, removed) = replacements_removed(world, journal, left);
    restores_spare(a, journal, 0, receipts);
    let (b, restored) = all_retained_restored(a, journal, 0);
    join(world, a, b, spares_others(receipts));
    let desired = intent(any_retained_running(journal.retained_groups));
    move_spares(b, journal, "service.transition"@, desired, receipts);
    let (c, moved) = service_in_state(b, journal, "service.transition"@, desired);
    join(world, b, c, spares_others(receipts));
    created_retire_spares(c, receipts, receipts.len() as int);
    join(
        world,
        c,
        created_retired(c, receipts, receipts.len() as int).0,
        spares_others(receipts),
    );
    resettle_spares(world, journal.initial_group_states, 0, receipts);
    let (d, resettled) = initial_resettled(world, journal.initial_group_states, 0);
    let former = intent(any_initial_running(journal.initial_group_states));
    move_spares(d, journal, "service.transition"@, former, receipts);
    join(
        world,
        d,
        service_in_state(d, journal, "service.transition"@, former).0,
        spares_others(receipts),
    );
}

// ---------------------------------------------------------------------------
// Receipts
// ---------------------------------------------------------------------------

/// Recording a receipt keeps receipts ordered, with one for each group and node.
pub proof fn law_receipts_stay_sorted(
    receipts: Seq<NodeModelRuntimeReceiptView>,
    receipt: NodeModelRuntimeReceiptView,
)
    requires
        is_strictly_sorted(
            receipts,
            |receipt: NodeModelRuntimeReceiptView| receipt_key(receipt),
        ),
    ensures
        is_strictly_sorted(
            receipts_with(receipts, receipt),
            |receipt: NodeModelRuntimeReceiptView| receipt_key(receipt),
        ),
        receipts_with(receipts, receipt).contains(receipt),
{
    broadcast use vstd::seq_lib::group_to_multiset_ensures;

    let key = |receipt: NodeModelRuntimeReceiptView| receipt_key(receipt);
    let keep = |existing: NodeModelRuntimeReceiptView|
        existing.group_index != receipt.group_index || existing.node_id != receipt.node_id;
    let others = other_receipts(receipts, receipt);
    let unsorted = others.push(receipt);
    let sorted = receipts_with(receipts, receipt);
    lemma_selected_members(receipts, keep);
    selected_stays_sorted(receipts, keep);
    lemma_stable_sort(unsorted, key);
    assert(unsorted.last() == receipt);
    assert(unsorted.contains(receipt));
    assert(unsorted.to_multiset().contains(receipt));
    assert(sorted.to_multiset().contains(receipt));
    assert forall|i: int, j: int|
        0 <= i < unsorted.len() && 0 <= j < unsorted.len() && i != j implies unsorted[i]
        != unsorted[j] by {
        if i < others.len() && j < others.len() {
            if i < j {
                assert(key_lt(key(others[i]), key(others[j])));
            } else {
                assert(key_lt(key(others[j]), key(others[i])));
            }
        } else if i < others.len() {
            assert(keep(others[i]));
        } else {
            assert(keep(others[j]));
        }
    }
    unsorted.lemma_multiset_has_no_duplicates();
    sorted.lemma_multiset_has_no_duplicates_conv();
    assert forall|i: int, j: int|
        #![trigger sorted[i], sorted[j]]
        0 <= i < j < sorted.len() implies key_lt(key(sorted[i]), key(sorted[j])) by {
        assert(key_le(key(sorted[i]), key(sorted[j])));
        let x = sorted[i];
        let y = sorted[j];
        assert(sorted.contains(x) && sorted.contains(y));
        assert(sorted.to_multiset().contains(x) && sorted.to_multiset().contains(y));
        assert(unsorted.to_multiset().contains(x) && unsorted.to_multiset().contains(y));
        assert(unsorted.contains(x) && unsorted.contains(y));
        assert(x != y);
        if key(x) == key(y) {
            assert(x.node_id.kind == y.node_id.kind);
            assert(x.node_id == y.node_id);
            let a = choose|a: int| 0 <= a < unsorted.len() && unsorted[a] == x;
            let b = choose|b: int| 0 <= b < unsorted.len() && unsorted[b] == y;
            if a < others.len() && b < others.len() {
                if a < b {
                    assert(key_lt(key(others[a]), key(others[b])));
                } else {
                    assert(key_lt(key(others[b]), key(others[a])));
                }
            } else if a < others.len() {
                assert(keep(others[a]));
            } else {
                assert(keep(others[b]));
            }
            assert(false);
        }
    }
}

proof fn selected_stays_sorted(
    receipts: Seq<NodeModelRuntimeReceiptView>,
    keep: spec_fn(NodeModelRuntimeReceiptView) -> bool,
)
    requires
        is_strictly_sorted(
            receipts,
            |receipt: NodeModelRuntimeReceiptView| receipt_key(receipt),
        ),
    ensures
        is_strictly_sorted(
            selected(receipts, keep),
            |receipt: NodeModelRuntimeReceiptView| receipt_key(receipt),
        ),
    decreases receipts.len(),
{
    let key = |receipt: NodeModelRuntimeReceiptView| receipt_key(receipt);
    if receipts.len() > 0 {
        let shorter = receipts.drop_last();
        assert forall|i: int, j: int|
            #![trigger shorter[i], shorter[j]]
            0 <= i < j < shorter.len() implies key_lt(key(shorter[i]), key(shorter[j])) by {
            assert(key_lt(key(receipts[i]), key(receipts[j])));
        }
        selected_stays_sorted(shorter, keep);
        lemma_selected_members(shorter, keep);
        let inner = selected(shorter, keep);
        let whole = selected(receipts, keep);
        assert forall|i: int, j: int|
            #![trigger whole[i], whole[j]]
            0 <= i < j < whole.len() implies key_lt(key(whole[i]), key(whole[j])) by {
            if j < inner.len() {
                assert(key_lt(key(inner[i]), key(inner[j])));
            } else {
                let k = choose|k: int| 0 <= k < shorter.len() && shorter[k] == inner[i];
                assert(key_lt(key(receipts[k]), key(receipts[receipts.len() - 1])));
            }
        }
    }
}

} // verus!
