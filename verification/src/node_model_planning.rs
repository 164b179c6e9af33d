//! The plan of one model command, committed to the journal before any other mutation.

use vstd::prelude::*;

use crate::entity::{
    ModelService, ModelServiceDesiredState, ModelServiceView, PlacementAssignment,
    PlacementGroupState, PlacementRecord, PlacementRecordView, RuntimeInstallation,
    RuntimeInstallationState, RuntimeInstallationView,
};
use crate::identity::{
    contains_id, ModelServiceId, NodeId, OperationId, PlacementGroupId, RuntimeCandidateId,
    TargetId, UnixMilliseconds,
};
use crate::node_model_contract::{
    install_group, planned_groups, planned_placement_group_ids, planned_restoration_group,
    planned_restoration_group_id, receipt_key, retained_group, InitialGroupState, NodeModelAction,
    NodeModelCommandIdentity, NodeModelCommandIdentityView, NodeModelError, NodeModelInstallGroup,
    NodeModelInstallGroupView, NodeModelInstallRequest, NodeModelInstallRequestView,
    NodeModelJournal, NodeModelJournalState, NodeModelJournalView, NodeModelRemovalRetention,
    NodeModelRemovalSelection, NodeModelRemovalSelectionView, NodeModelRemoveRequest,
    NodeModelRemoveRequestView, NodeModelRetainedGroup, NodeModelRetainedGroupView,
    NodeModelRetainedNode, NodeModelRollbackGroupPreview, NodeModelRollbackGroupPreviewView,
    NodeModelRollbackPreview, NodeModelRollbackPreviewView, NodeModelRuntimeDisposition,
    NodeModelRuntimeReceipt, NodeModelRuntimeReceiptView, NodeModelUpdateRequest,
    NodeModelUpdateRequestView, VersionedNodeModelJournal, VersionedNodeModelJournalView,
};
use crate::node_model_execution::{candidate_selected, same_runtime, select_candidate};
use crate::node_model_groups::{
    completed, from_placement, from_runtime, known_group, known_installation, known_service,
    redacted, required, NodeModelOrchestrationPorts, Step,
};
use crate::node_model_rules::{
    candidate_installed, candidate_matches_installation, existing_matches,
    existing_request_matches, install_matches, install_request_matches, placement_node_ids,
    record_nodes, remove_matches, remove_request_matches, removal_node_ids,
    require_group_runtime_identity, rollback_initial_state, rollback_intent,
    rollback_pair_is_valid, rollback_pair_valid, rollback_runtime, rollback_runtime_of,
    update_matches, update_request_matches,
};
use crate::node_model_world::NodeModelWorld;
use crate::sequence::{
    copy_optional, lemma_selected_step, listed, outcome, selected, sort_stable, stable_sort,
    viewed, views, Keyed, Valued,
};

verus! {

/// What a new journal starts from: everything else is empty or default.
pub open spec fn journal_prepared(
    identity: NodeModelCommandIdentityView,
    action: NodeModelAction,
    service_id: ModelServiceId,
    logical_model: Seq<char>,
    now: UnixMilliseconds,
) -> NodeModelJournalView {
    NodeModelJournalView {
        operation_id: identity.operation_id,
        idempotency_key: identity.idempotency_key,
        action,
        service_id,
        logical_model,
        install_groups: Seq::empty(),
        rollback_target_id: None,
        retained_groups: Seq::empty(),
        runtime_receipts: Seq::empty(),
        planned_group_ids: Seq::empty(),
        placement_group_ids: Seq::empty(),
        initial_group_states: Seq::empty(),
        removal_node_ids: Seq::empty(),
        removal_runtime_retention: NodeModelRemovalRetention::RemoveUnreferencedRuntimes,
        state: NodeModelJournalState::Prepared,
        failure_code: None,
        created_at: now,
        updated_at: now,
    }
}

fn prepared_journal(
    identity: NodeModelCommandIdentity,
    action: NodeModelAction,
    service_id: ModelServiceId,
    logical_model: crate::identity::LogicalModelName,
    now: UnixMilliseconds,
) -> (journal: NodeModelJournal)
    ensures
        journal@ == journal_prepared(identity@, action, service_id, logical_model@, now),
{
    let journal = NodeModelJournal {
        operation_id: identity.operation_id,
        idempotency_key: identity.idempotency_key,
        action,
        service_id,
        logical_model,
        install_groups: Vec::new(),
        rollback_target_id: None,
        retained_groups: Vec::new(),
        runtime_receipts: Vec::new(),
        planned_group_ids: Vec::new(),
        placement_group_ids: Vec::new(),
        initial_group_states: Vec::new(),
        removal_node_ids: Vec::new(),
        removal_runtime_retention: NodeModelRemovalRetention::RemoveUnreferencedRuntimes,
        state: NodeModelJournalState::Prepared,
        failure_code: None,
        created_at: now,
        updated_at: now,
    };
    proof {
        let expected = journal_prepared(identity@, action, service_id, logical_model@, now);
        assert(journal@.install_groups =~= expected.install_groups);
        assert(journal@.retained_groups =~= expected.retained_groups);
        assert(journal@.runtime_receipts =~= expected.runtime_receipts);
        assert(journal@.planned_group_ids =~= expected.planned_group_ids);
        assert(journal@.placement_group_ids =~= expected.placement_group_ids);
        assert(journal@.initial_group_states =~= expected.initial_group_states);
        assert(journal@.removal_node_ids =~= expected.removal_node_ids);
    }
    journal
}

// ---------------------------------------------------------------------------
// Installation
// ---------------------------------------------------------------------------

/// An install command is replayed from its journal or committed with its derived groups.
pub open spec fn install_prepared(
    world: NodeModelWorld,
    request: NodeModelInstallRequestView,
) -> Step<VersionedNodeModelJournalView> {
    let (world, existing) = world.read_journal(request.identity.operation_id);
    match existing {
        Err(error) => (world, Err(error)),
        Ok(Some(existing)) => if install_matches(existing.journal, request) {
            (world, Ok(existing))
        } else {
            (world, Err(NodeModelError::JournalConflict))
        },
        Ok(None) => {
            let (world, now) = world.now();
            match now {
                Err(error) => (world, Err(error)),
                Ok(now) => world.create_journal(
                    NodeModelJournalView {
                        install_groups: request.groups,
                        planned_group_ids: planned_groups(
                            request.identity.operation_id,
                            request.groups.len(),
                        ),
                        ..journal_prepared(
                            request.identity,
                            NodeModelAction::Install,
                            request.service_id,
                            request.logical_model,
                            now,
                        )
                    },
                ),
            }
        },
    }
}

/// Commits the complete normalized install command before other mutation.
pub fn prepare_install<P: NodeModelOrchestrationPorts>(
    ports: &mut P,
    request: NodeModelInstallRequest,
) -> (journal: Result<VersionedNodeModelJournal, NodeModelError>)
    ensures
        (final(ports).world(), outcome(journal)) == install_prepared(old(ports).world(), request@),
{
    match ports.read(&request.identity.operation_id)? {
        Some(existing) => {
            if install_request_matches(&existing.journal, &request) {
                Ok(existing)
            } else {
                Err(NodeModelError::JournalConflict)
            }
        },
        None => {
            let planned = planned_placement_group_ids(
                &request.identity.operation_id,
                request.groups.len(),
            );
            let now = ports.now()?;
            let mut journal = prepared_journal(
                request.identity,
                NodeModelAction::Install,
                request.service_id,
                request.logical_model,
                now,
            );
            journal.install_groups = request.groups;
            journal.planned_group_ids = planned;
            ports.create(journal)
        },
    }
}

// ---------------------------------------------------------------------------
// Updates
// ---------------------------------------------------------------------------

/// What one update would replace: the service, the changed groups and their current states.
pub struct UpdatePlanView {
    pub service: ModelServiceView,
    pub groups: Seq<NodeModelInstallGroupView>,
    pub states: Seq<InitialGroupState>,
}

/// What one update would replace.
pub struct UpdatePlan {
    pub service: ModelService,
    pub groups: Vec<NodeModelInstallGroup>,
    pub states: Vec<InitialGroupState>,
}

impl View for UpdatePlan {
    type V = UpdatePlanView;

    open spec fn view(&self) -> UpdatePlanView {
        UpdatePlanView {
            service: self.service@,
            groups: views(self.groups@),
            states: views(self.states@),
        }
    }
}

/// Whether any placement from one position on would run another candidate, with the nodes seen.
pub open spec fn placements_compared(
    world: NodeModelWorld,
    logical_model: Seq<char>,
    explicit_candidate_id: Option<Seq<char>>,
    placements: Seq<PlacementAssignment>,
    at: int,
    nodes: Seq<NodeId>,
    changed: bool,
) -> Step<(Seq<NodeId>, bool)>
    decreases placements.len() - at,
{
    if at < 0 || at >= placements.len() {
        (world, Ok((nodes, changed)))
    } else {
        let placement = placements[at];
        let (world, installation) = required(
            from_runtime(world.installation(placement.runtime_installation_id)),
        );
        match installation {
            Err(error) => (world, Err(error)),
            Ok(installation) => {
                let (world, candidate) = candidate_selected(
                    world,
                    logical_model,
                    explicit_candidate_id,
                    placement.node_id,
                );
                match candidate {
                    Err(error) => (world, Err(error)),
                    Ok(candidate) => placements_compared(
                        world,
                        logical_model,
                        explicit_candidate_id,
                        placements,
                        at + 1,
                        nodes.push(placement.node_id),
                        changed || !candidate_installed(candidate.0, installation),
                    ),
                }
            },
        }
    }
}

#[verifier::loop_isolation(false)]
fn compare_placements<P: NodeModelOrchestrationPorts>(
    ports: &mut P,
    logical_model: &crate::identity::LogicalModelName,
    explicit_candidate_id: &Option<RuntimeCandidateId>,
    placements: &Vec<PlacementAssignment>,
) -> (compared: Result<(Vec<NodeId>, bool), NodeModelError>)
    ensures
        (final(ports).world(), compared_view(compared)) == placements_compared(
            old(ports).world(),
            logical_model@,
            viewed(*explicit_candidate_id),
            views(placements@),
            0,
            Seq::empty(),
            false,
        ),
{
    let ghost start = ports.world();
    let ghost all = views(placements@);
    let mut nodes: Vec<NodeId> = Vec::new();
    let mut changed = false;
    let mut i: usize = 0;
    proof {
        assert(nodes@ =~= Seq::<NodeId>::empty());
    }
    while i < placements.len()
        invariant
            i <= placements@.len(),
            placements_compared(
                ports.world(),
                logical_model@,
                viewed(*explicit_candidate_id),
                all,
                i as int,
                nodes@,
                changed,
            ) == placements_compared(
                start,
                logical_model@,
                viewed(*explicit_candidate_id),
                all,
                0,
                Seq::empty(),
                false,
            ),
        decreases placements@.len() - i,
    {
        let placement = placements[i];
        assert(all[i as int] == placement);
        let installation = known_installation(ports, &placement.runtime_installation_id)?;
        let (candidate, _) = select_candidate(
            ports,
            logical_model,
            explicit_candidate_id,
            &placement.node_id,
        )?;
        changed = changed || !candidate_matches_installation(&candidate, &installation);
        nodes.push(placement.node_id);
        i += 1;
    }
    Ok((nodes, changed))
}

/// One comparison by view.
pub open spec fn compared_view(result: Result<(Vec<NodeId>, bool), NodeModelError>) -> Result<
    (Seq<NodeId>, bool),
    NodeModelError,
> {
    match result {
        Ok(pair) => Ok((pair.0@, pair.1)),
        Err(error) => Err(error),
    }
}

/// The changed groups of one service from one position on.
pub open spec fn groups_compared(
    world: NodeModelWorld,
    service: ModelServiceView,
    service_id: ModelServiceId,
    explicit_candidate_id: Option<Seq<char>>,
    at: int,
    groups: Seq<NodeModelInstallGroupView>,
    states: Seq<InitialGroupState>,
) -> Step<UpdatePlanView>
    decreases service.placement_group_ids.len() - at,
{
    if at < 0 || at >= service.placement_group_ids.len() {
        (world, Ok(UpdatePlanView { service, groups, states }))
    } else {
        let group_id = service.placement_group_ids[at];
        let (world, record) = required(from_placement(world.group_record(group_id)));
        match record {
            Err(error) => (world, Err(error)),
            Ok(record) => if record.group.service_id != service_id || record.group.state
                == PlacementGroupState::Removed {
                (world, Err(NodeModelError::RecoveryRequired))
            } else {
                let (world, compared) = placements_compared(
                    world,
                    service.logical_model,
                    explicit_candidate_id,
                    record.placements,
                    0,
                    Seq::empty(),
                    false,
                );
                match compared {
                    Err(error) => (world, Err(error)),
                    Ok(compared) => if compared.1 {
                        match install_group(compared.0, explicit_candidate_id) {
                            Err(error) => (world, Err(error)),
                            Ok(group) => groups_compared(
                                world,
                                service,
                                service_id,
                                explicit_candidate_id,
                                at + 1,
                                groups.push(group),
                                states.push(
                                    InitialGroupState {
                                        placement_group_id: group_id,
                                        state: record.group.state,
                                    },
                                ),
                            ),
                        }
                    } else {
                        groups_compared(
                            world,
                            service,
                            service_id,
                            explicit_candidate_id,
                            at + 1,
                            groups,
                            states,
                        )
                    },
                }
            },
        }
    }
}

/// The plan of one update.
pub open spec fn update_planned(
    world: NodeModelWorld,
    service_id: ModelServiceId,
    explicit_candidate_id: Option<Seq<char>>,
) -> Step<UpdatePlanView> {
    let (world, service) = redacted(world.service(service_id));
    match service {
        Err(error) => (world, Err(error)),
        Ok(service) => if service.service.desired_state == ModelServiceDesiredState::Removed {
            (
                world,
                Err(
                    NodeModelError::InvalidRequest {
                        reason: "removed model service cannot be updated",
                    },
                ),
            )
        } else {
            groups_compared(
                world,
                service.service,
                service_id,
                explicit_candidate_id,
                0,
                Seq::empty(),
                Seq::empty(),
            )
        },
    }
}

/// Resolves only changed placement groups without applying provider mutation.
#[verifier::loop_isolation(false)]
pub fn update_plan<P: NodeModelOrchestrationPorts>(
    ports: &mut P,
    service_id: &ModelServiceId,
    explicit_candidate_id: &Option<RuntimeCandidateId>,
) -> (plan: Result<UpdatePlan, NodeModelError>)
    ensures
        (final(ports).world(), outcome(plan)) == update_planned(
            old(ports).world(),
            *service_id,
            viewed(*explicit_candidate_id),
        ),
{
    let service = known_service(ports, service_id)?.service;
    if service.desired_state == ModelServiceDesiredState::Removed {
        return Err(
            NodeModelError::InvalidRequest { reason: "removed model service cannot be updated" },
        );
    }
    let ghost start = ports.world();
    let ghost pinned = viewed(*explicit_candidate_id);
    let mut groups: Vec<NodeModelInstallGroup> = Vec::new();
    let mut states: Vec<InitialGroupState> = Vec::new();
    let mut i: usize = 0;
    proof {
        assert(views(groups@) =~= Seq::<NodeModelInstallGroupView>::empty());
        assert(views(states@) =~= Seq::<InitialGroupState>::empty());
    }
    while i < service.placement_group_ids.len()
        invariant
            i <= service.placement_group_ids@.len(),
            groups_compared(
                ports.world(),
                service@,
                *service_id,
                pinned,
                i as int,
                views(groups@),
                views(states@),
            ) == groups_compared(
                start,
                service@,
                *service_id,
                pinned,
                0,
                Seq::empty(),
                Seq::empty(),
            ),
        decreases service.placement_group_ids@.len() - i,
    {
        let ghost groups_before = views(groups@);
        let ghost states_before = views(states@);
        let group_id = service.placement_group_ids[i];
        let record = known_group(ports, &group_id)?;
        if record.group.service_id != *service_id || record.group.state
            == PlacementGroupState::Removed {
            return Err(NodeModelError::RecoveryRequired);
        }
        let (nodes, changed) = compare_placements(
            ports,
            &service.logical_model,
            explicit_candidate_id,
            &record.placements,
        )?;
        if changed {
            let group = NodeModelInstallGroup::new(nodes, copy_optional(explicit_candidate_id))?;
            groups.push(group);
            states.push(
                InitialGroupState { placement_group_id: group_id, state: record.group.state },
            );
            assert(views(groups@) =~= groups_before.push(group@));
            assert(views(states@) =~= states_before.push(
                InitialGroupState { placement_group_id: group_id, state: record@.group.state },
            ));
        }
        i += 1;
    }
    Ok(UpdatePlan { service, groups, states })
}

/// The retained assignments of one list of placements.
pub open spec fn retained_assignments(placements: Seq<PlacementAssignment>) -> Seq<
    NodeModelRetainedNode,
> {
    Seq::new(
        placements.len(),
        |i: int|
            NodeModelRetainedNode {
                node_id: placements[i].node_id,
                installation_id: placements[i].runtime_installation_id,
            },
    )
}

#[verifier::loop_isolation(false)]
fn retain_assignments(placements: &Vec<PlacementAssignment>) -> (nodes: Vec<NodeModelRetainedNode>)
    ensures
        views(nodes@) == retained_assignments(views(placements@)),
{
    let mut nodes: Vec<NodeModelRetainedNode> = Vec::new();
    let mut i: usize = 0;
    while i < placements.len()
        invariant
            i <= placements@.len(),
            nodes@.len() == i,
            forall|k: int|
                0 <= k < i ==> nodes@[k] == retained_assignments(views(placements@))[k],
        decreases placements@.len() - i,
    {
        nodes.push(
            NodeModelRetainedNode::new(
                placements[i].node_id,
                placements[i].runtime_installation_id,
            ),
        );
        i += 1;
    }
    assert(views(nodes@) =~= retained_assignments(views(placements@)));
    nodes
}

/// The current assignments of every group from one position on.
pub open spec fn groups_retained(
    world: NodeModelWorld,
    operation_id: OperationId,
    states: Seq<InitialGroupState>,
    at: int,
    groups: Seq<NodeModelRetainedGroupView>,
) -> Step<Seq<NodeModelRetainedGroupView>>
    decreases states.len() - at,
{
    if at < 0 || at >= states.len() {
        (world, Ok(groups))
    } else {
        let (world, record) = required(
            from_placement(world.group_record(states[at].placement_group_id)),
        );
        match record {
            Err(error) => (world, Err(error)),
            Ok(record) => if record.group.state == PlacementGroupState::Removed {
                (world, Err(NodeModelError::RecoveryRequired))
            } else {
                match retained_group(
                    states[at].placement_group_id,
                    planned_restoration_group(operation_id, at as nat),
                    states[at].state,
                    retained_assignments(record.placements),
                ) {
                    Err(error) => (world, Err(error)),
                    Ok(group) => groups_retained(
                        world,
                        operation_id,
                        states,
                        at + 1,
                        groups.push(group),
                    ),
                }
            },
        }
    }
}

/// Captures exact current assignments before update or rollback can release their resources.
#[verifier::loop_isolation(false)]
pub fn retained_groups<P: NodeModelOrchestrationPorts>(
    ports: &mut P,
    operation_id: &OperationId,
    states: &Vec<InitialGroupState>,
) -> (groups: Result<Vec<NodeModelRetainedGroup>, NodeModelError>)
    ensures
        (final(ports).world(), listed(groups)) == groups_retained(
            old(ports).world(),
            *operation_id,
            views(states@),
            0,
            Seq::empty(),
        ),
{
    let ghost start = ports.world();
    let ghost all = views(states@);
    let mut groups: Vec<NodeModelRetainedGroup> = Vec::new();
    let mut i: usize = 0;
    proof {
        assert(views(groups@) =~= Seq::<NodeModelRetainedGroupView>::empty());
    }
    while i < states.len()
        invariant
            i <= states@.len(),
            groups_retained(ports.world(), *operation_id, all, i as int, views(groups@))
                == groups_retained(start, *operation_id, all, 0, Seq::empty()),
        decreases states@.len() - i,
    {
        let ghost before = views(groups@);
        let entry = states[i];
        assert(all[i as int] == entry);
        let record = known_group(ports, &entry.placement_group_id)?;
        if record.group.state == PlacementGroupState::Removed {
            return Err(NodeModelError::RecoveryRequired);
        }
        let group = NodeModelRetainedGroup::new(
            entry.placement_group_id,
            planned_restoration_group_id(operation_id, i),
            entry.state,
            retain_assignments(&record.placements),
        )?;
        groups.push(group);
        assert(views(groups@) =~= before.push(group@));
        i += 1;
    }
    Ok(groups)
}

/// An update command is replayed from its journal or committed with its derived groups.
pub open spec fn update_prepared(
    world: NodeModelWorld,
    request: NodeModelUpdateRequestView,
    plan: UpdatePlanView,
) -> Step<VersionedNodeModelJournalView> {
    let (world, existing) = world.read_journal(request.identity.operation_id);
    match existing {
        Err(error) => (world, Err(error)),
        Ok(Some(existing)) => if update_matches(existing.journal, request) {
            (world, Ok(existing))
        } else {
            (world, Err(NodeModelError::JournalConflict))
        },
        Ok(None) => {
            let (world, retained) = groups_retained(
                world,
                request.identity.operation_id,
                plan.states,
                0,
                Seq::empty(),
            );
            match retained {
                Err(error) => (world, Err(error)),
                Ok(retained) => {
                    let (world, now) = world.now();
                    match now {
                        Err(error) => (world, Err(error)),
                        Ok(now) => world.create_journal(
                            NodeModelJournalView {
                                install_groups: plan.groups,
                                retained_groups: retained,
                                planned_group_ids: planned_groups(
                                    request.identity.operation_id,
                                    plan.groups.len(),
                                ),
                                initial_group_states: plan.states,
                                ..journal_prepared(
                                    request.identity,
                                    NodeModelAction::Update,
                                    plan.service.service_id,
                                    plan.service.logical_model,
                                    now,
                                )
                            },
                        ),
                    }
                },
            }
        },
    }
}

/// Persists one replacement plan before acquiring runtimes or changing placements.
pub fn prepare_update<P: NodeModelOrchestrationPorts>(
    ports: &mut P,
    request: NodeModelUpdateRequest,
    plan: UpdatePlan,
) -> (journal: Result<VersionedNodeModelJournal, NodeModelError>)
    ensures
        (final(ports).world(), outcome(journal)) == update_prepared(
            old(ports).world(),
            request@,
            plan@,
        ),
{
    match ports.read(&request.identity.operation_id)? {
        Some(existing) => {
            if update_request_matches(&existing.journal, &request) {
                Ok(existing)
            } else {
                Err(NodeModelError::JournalConflict)
            }
        },
        None => {
            let operation_id = request.identity.operation_id;
            let planned = planned_placement_group_ids(&operation_id, plan.groups.len());
            let retained = retained_groups(ports, &operation_id, &plan.states)?;
            let now = ports.now()?;
            let mut journal = prepared_journal(
                request.identity,
                NodeModelAction::Update,
                plan.service.service_id,
                plan.service.logical_model,
                now,
            );
            journal.install_groups = plan.groups;
            journal.retained_groups = retained;
            journal.planned_group_ids = planned;
            journal.initial_group_states = plan.states;
            ports.create(journal)
        },
    }
}

// ---------------------------------------------------------------------------
// Rollbacks
// ---------------------------------------------------------------------------

/// One current group and the retained predecessor that replaces it.
pub struct RollbackPairView {
    pub current: PlacementRecordView,
    pub previous: PlacementRecordView,
}

/// Carries one current group and its latest successful retained predecessor.
pub struct NodeModelRollbackPair {
    pub current: PlacementRecord,
    pub previous: PlacementRecord,
}

impl View for NodeModelRollbackPair {
    type V = RollbackPairView;

    open spec fn view(&self) -> RollbackPairView {
        RollbackPairView { current: self.current@, previous: self.previous@ }
    }
}

/// What one rollback would replace.
pub struct RollbackPlanView {
    pub service: ModelServiceView,
    pub target_id: Option<Seq<char>>,
    pub pairs: Seq<RollbackPairView>,
}

/// Carries one complete atomic rollback selection before any journal or provider mutation.
pub struct NodeModelRollbackPlan {
    pub service: ModelService,
    pub target_id: Option<TargetId>,
    pub pairs: Vec<NodeModelRollbackPair>,
}

impl View for NodeModelRollbackPlan {
    type V = RollbackPlanView;

    open spec fn view(&self) -> RollbackPlanView {
        RollbackPlanView {
            service: self.service@,
            target_id: viewed(self.target_id),
            pairs: views(self.pairs@),
        }
    }
}

/// The aggregates of every group from one position on.
pub open spec fn groups_read(
    world: NodeModelWorld,
    groups: Seq<PlacementGroupId>,
    at: int,
    records: Seq<PlacementRecordView>,
) -> Step<Seq<PlacementRecordView>>
    decreases groups.len() - at,
{
    if at < 0 || at >= groups.len() {
        (world, Ok(records))
    } else {
        let (world, record) = required(from_placement(world.group_record(groups[at])));
        match record {
            Err(error) => (world, Err(error)),
            Ok(record) => groups_read(world, groups, at + 1, records.push(record)),
        }
    }
}

#[verifier::loop_isolation(false)]
fn read_groups<P: NodeModelOrchestrationPorts>(
    ports: &mut P,
    groups: &Vec<PlacementGroupId>,
) -> (records: Result<Vec<PlacementRecord>, NodeModelError>)
    ensures
        (final(ports).world(), listed(records)) == groups_read(
            old(ports).world(),
            groups@,
            0,
            Seq::empty(),
        ),
{
    let ghost start = ports.world();
    let mut records: Vec<PlacementRecord> = Vec::new();
    let mut i: usize = 0;
    proof {
        assert(views(records@) =~= Seq::<PlacementRecordView>::empty());
    }
    while i < groups.len()
        invariant
            i <= groups@.len(),
            groups_read(ports.world(), groups@, i as int, views(records@)) == groups_read(
                start,
                groups@,
                0,
                Seq::empty(),
            ),
        decreases groups@.len() - i,
    {
        let ghost before = views(records@);
        let record = known_group(ports, &groups[i])?;
        records.push(record);
        assert(views(records@) =~= before.push(record@));
        i += 1;
    }
    Ok(records)
}

/// A record inside the requested target.
pub open spec fn in_target(record: PlacementRecordView, target_id: Option<Seq<char>>) -> bool {
    target_id matches Some(target) ==> record.group.runtime.target_id == target
}

#[verifier::loop_isolation(false)]
fn keep_in_target(
    records: &Vec<PlacementRecord>,
    target_id: &Option<TargetId>,
) -> (kept: Vec<PlacementRecord>)
    ensures
        views(kept@) == selected(
            views(records@),
            |record: PlacementRecordView| in_target(record, viewed(*target_id)),
        ),
{
    let ghost all = views(records@);
    let ghost keep = |record: PlacementRecordView| in_target(record, viewed(*target_id));
    let mut kept: Vec<PlacementRecord> = Vec::new();
    let mut i: usize = 0;
    proof {
        assert(views(kept@) =~= selected(all.take(0), keep));
    }
    while i < records.len()
        invariant
            i <= records@.len(),
            views(kept@) == selected(all.take(i as int), keep),
        decreases records@.len() - i,
    {
        let record = &records[i];
        let ghost before = views(kept@);
        proof {
            assert(all[i as int] == record@);
            lemma_selected_step(all, keep, i as int);
        }
        let inside = match target_id {
            Some(target) => record.group.runtime.target_id.same(target),
            None => true,
        };
        if inside {
            kept.push(record.copy());
            assert(views(kept@) =~= before.push(record@));
        }
        i += 1;
    }
    proof {
        assert(all.take(all.len() as int) =~= all);
    }
    kept
}

/// Journals that replaced groups of one service successfully.
pub open spec fn replaced_groups(
    journal: VersionedNodeModelJournalView,
    service_id: ModelServiceId,
) -> bool {
    &&& journal.journal.service_id == service_id
    &&& journal.journal.state == NodeModelJournalState::Succeeded
    &&& journal.journal.action == NodeModelAction::Update || journal.journal.action
        == NodeModelAction::Rollback
}

impl Keyed for VersionedNodeModelJournal {
    open spec fn key(model: VersionedNodeModelJournalView) -> (int, int) {
        (-(model.journal.updated_at.value as int), -(model.journal.operation_id.value as int))
    }

    fn key_at_most(&self, other: &Self) -> (at_most: bool) {
        self.journal.updated_at.value > other.journal.updated_at.value || (
        self.journal.updated_at.value == other.journal.updated_at.value
            && self.journal.operation_id.value >= other.journal.operation_id.value)
    }
}

/// The replacements of one service, latest first.
pub open spec fn replacement_history(
    journals: Seq<VersionedNodeModelJournalView>,
    service_id: ModelServiceId,
) -> Seq<VersionedNodeModelJournalView> {
    stable_sort(
        selected(
            journals,
            |journal: VersionedNodeModelJournalView| replaced_groups(journal, service_id),
        ),
        |journal: VersionedNodeModelJournalView| VersionedNodeModelJournal::key(journal),
    )
}

#[verifier::loop_isolation(false)]
fn history_of(
    journals: &Vec<VersionedNodeModelJournal>,
    service_id: &ModelServiceId,
) -> (history: Vec<VersionedNodeModelJournal>)
    ensures
        views(history@) == replacement_history(views(journals@), *service_id),
{
    let ghost all = views(journals@);
    let ghost keep = |journal: VersionedNodeModelJournalView| replaced_groups(journal, *service_id);
    let mut kept: Vec<VersionedNodeModelJournal> = Vec::new();
    let mut i: usize = 0;
    proof {
        assert(views(kept@) =~= selected(all.take(0), keep));
    }
    while i < journals.len()
        invariant
            i <= journals@.len(),
            views(kept@) == selected(all.take(i as int), keep),
        decreases journals@.len() - i,
    {
        let journal = &journals[i];
        let ghost before = views(kept@);
        proof {
            assert(all[i as int] == journal@);
            lemma_selected_step(all, keep, i as int);
        }
        if journal.journal.service_id == *service_id && journal.journal.state
            == NodeModelJournalState::Succeeded && matches!(
            journal.journal.action,
            NodeModelAction::Update | NodeModelAction::Rollback
        ) {
            kept.push(journal.copy());
            assert(views(kept@) =~= before.push(journal@));
        }
        i += 1;
    }
    proof {
        assert(all.take(all.len() as int) =~= all);
    }
    sort_stable(kept)
}

/// The first position of one group in a list, from one position on.
pub open spec fn position_from(
    groups: Seq<PlacementGroupId>,
    group: PlacementGroupId,
    at: int,
) -> Option<int>
    decreases groups.len() - at,
{
    if at < 0 || at >= groups.len() {
        None
    } else if groups[at] == group {
        Some(at)
    } else {
        position_from(groups, group, at + 1)
    }
}

#[verifier::loop_isolation(false)]
fn position_of(
    groups: &Vec<PlacementGroupId>,
    group: &PlacementGroupId,
) -> (position: Option<usize>)
    ensures
        position matches Some(at) ==> at < groups@.len() && position_from(groups@, *group, 0)
            == Some(at as int),
        position is None ==> position_from(groups@, *group, 0) is None,
{
    let mut i: usize = 0;
    while i < groups.len()
        invariant
            i <= groups@.len(),
            position_from(groups@, *group, i as int) == position_from(groups@, *group, 0),
        decreases groups@.len() - i,
    {
        if groups[i] == *group {
            return Some(i);
        }
        i += 1;
    }
    None
}

/// The source group that one journal retained for the group it committed.
pub open spec fn retained_source(
    journal: NodeModelJournalView,
    group: PlacementGroupId,
) -> Option<PlacementGroupId> {
    match position_from(journal.placement_group_ids, group, 0) {
        None => None,
        Some(at) => if at < journal.retained_groups.len() {
            Some(journal.retained_groups[at].source_group_id)
        } else {
            None
        },
    }
}

fn retained_source_of(journal: &NodeModelJournal, group: &PlacementGroupId) -> (source: Option<
    PlacementGroupId,
>)
    ensures
        source == retained_source(journal@, *group),
{
    match position_of(&journal.placement_group_ids, group) {
        None => None,
        Some(at) => {
            if at < journal.retained_groups.len() {
                assert(journal@.retained_groups[at as int].source_group_id
                    == journal.retained_groups@[at as int].source_group_id);
                Some(journal.retained_groups[at].source_group_id)
            } else {
                None
            }
        },
    }
}

/// The latest valid predecessor of one current group, from one position of the history on.
pub open spec fn predecessor_found(
    world: NodeModelWorld,
    current: PlacementRecordView,
    history: Seq<VersionedNodeModelJournalView>,
    at: int,
) -> (NodeModelWorld, Option<PlacementRecordView>)
    decreases history.len() - at,
{
    if at < 0 || at >= history.len() {
        (world, None)
    } else {
        match retained_source(history[at].journal, current.group.placement_group_id) {
            None => predecessor_found(world, current, history, at + 1),
            Some(source) => {
                let (world, record) = world.group_record(source);
                match record {
                    Ok(Some(previous)) => if rollback_pair_valid(current, previous) {
                        (world, Some(previous))
                    } else {
                        predecessor_found(world, current, history, at + 1)
                    },
                    _ => predecessor_found(world, current, history, at + 1),
                }
            },
        }
    }
}

#[verifier::loop_isolation(false)]
fn find_predecessor<P: NodeModelOrchestrationPorts>(
    ports: &mut P,
    current: &PlacementRecord,
    history: &Vec<VersionedNodeModelJournal>,
) -> (previous: Option<PlacementRecord>)
    ensures
        (final(ports).world(), viewed(previous)) == predecessor_found(
            old(ports).world(),
            current@,
            views(history@),
            0,
        ),
{
    let ghost start = ports.world();
    let ghost all = views(history@);
    let mut i: usize = 0;
    while i < history.len()
        invariant
            i <= history@.len(),
            predecessor_found(ports.world(), current@, all, i as int) == predecessor_found(
                start,
                current@,
                all,
                0,
            ),
        decreases history@.len() - i,
    {
        assert(all[i as int] == history@[i as int]@);
        match retained_source_of(&history[i].journal, &current.group.placement_group_id) {
            None => {},
            Some(source) => match ports.record(&source) {
                Ok(Some(previous)) => {
                    if rollback_pair_is_valid(current, &previous) {
                        return Some(previous);
                    }
                },
                _ => {},
            },
        }
        i += 1;
    }
    None
}

/// The installations of one predecessor from one position on, each available on its node with
/// the predecessor's runtime.
pub open spec fn previous_read(
    world: NodeModelWorld,
    previous: PlacementRecordView,
    at: int,
    installations: Seq<RuntimeInstallationView>,
) -> Step<Seq<RuntimeInstallationView>>
    decreases previous.placements.len() - at,
{
    if at < 0 || at >= previous.placements.len() {
        (world, Ok(installations))
    } else {
        let placement = previous.placements[at];
        let (world, installation) = required(
            from_runtime(world.installation(placement.runtime_installation_id)),
        );
        match installation {
            Err(error) => (world, Err(error)),
            Ok(installation) => if installation.state != RuntimeInstallationState::Available
                || installation.node_id != placement.node_id || installation.runtime
                != previous.group.runtime {
                (world, Err(NodeModelError::RecoveryRequired))
            } else {
                previous_read(world, previous, at + 1, installations.push(installation))
            },
        }
    }
}

/// A predecessor whose every installation can run again.
pub open spec fn previous_checked(
    world: NodeModelWorld,
    previous: PlacementRecordView,
) -> Step<()> {
    completed(same_runtime(previous_read(world, previous, 0, Seq::empty())))
}

/// Requires every retained prior placement to reference exact available matching bytes.
#[verifier::loop_isolation(false)]
pub fn validate_rollback_previous<P: NodeModelOrchestrationPorts>(
    ports: &mut P,
    previous: &PlacementRecord,
) -> (result: Result<(), NodeModelError>)
    ensures
        (final(ports).world(), result) == previous_checked(old(ports).world(), previous@),
{
    let ghost start = ports.world();
    let mut installations: Vec<RuntimeInstallation> = Vec::new();
    let mut i: usize = 0;
    proof {
        assert(views(installations@) =~= Seq::<RuntimeInstallationView>::empty());
    }
    while i < previous.placements.len()
        invariant
            i <= previous.placements@.len(),
            previous_read(ports.world(), previous@, i as int, views(installations@))
                == previous_read(start, previous@, 0, Seq::empty()),
        decreases previous.placements@.len() - i,
    {
        let ghost before = views(installations@);
        let placement = previous.placements[i];
        assert(previous@.placements[i as int] == placement);
        let installation = known_installation(ports, &placement.runtime_installation_id)?;
        if installation.state != RuntimeInstallationState::Available || installation.node_id
            != placement.node_id || !installation.runtime.same(&previous.group.runtime) {
            return Err(NodeModelError::RecoveryRequired);
        }
        installations.push(installation);
        assert(views(installations@) =~= before.push(installation@));
        i += 1;
    }
    require_group_runtime_identity(&installations)?;
    Ok(())
}

/// Every current group from one position on with its checked predecessor.
pub open spec fn pairs_found(
    world: NodeModelWorld,
    current: Seq<PlacementRecordView>,
    history: Seq<VersionedNodeModelJournalView>,
    at: int,
    pairs: Seq<RollbackPairView>,
) -> Step<Seq<RollbackPairView>>
    decreases current.len() - at,
{
    if at < 0 || at >= current.len() {
        (world, Ok(pairs))
    } else {
        let (world, previous) = predecessor_found(world, current[at], history, 0);
        match previous {
            None => (
                world,
                Err(
                    NodeModelError::InvalidRequest {
                        reason: "model service has no retained prior runtime",
                    },
                ),
            ),
            Some(previous) => {
                let (world, checked) = previous_checked(world, previous);
                match checked {
                    Err(error) => (world, Err(error)),
                    Ok(_) => pairs_found(
                        world,
                        current,
                        history,
                        at + 1,
                        pairs.push(RollbackPairView { current: current[at], previous }),
                    ),
                }
            },
        }
    }
}

#[verifier::loop_isolation(false)]
fn find_pairs<P: NodeModelOrchestrationPorts>(
    ports: &mut P,
    current: &Vec<PlacementRecord>,
    history: &Vec<VersionedNodeModelJournal>,
) -> (pairs: Result<Vec<NodeModelRollbackPair>, NodeModelError>)
    ensures
        (final(ports).world(), listed(pairs)) == pairs_found(
            old(ports).world(),
            views(current@),
            views(history@),
            0,
            Seq::empty(),
        ),
{
    let ghost start = ports.world();
    let ghost all = views(current@);
    let ghost past = views(history@);
    let mut pairs: Vec<NodeModelRollbackPair> = Vec::new();
    let mut i: usize = 0;
    proof {
        assert(views(pairs@) =~= Seq::<RollbackPairView>::empty());
    }
    while i < current.len()
        invariant
            i <= current@.len(),
            pairs_found(ports.world(), all, past, i as int, views(pairs@)) == pairs_found(
                start,
                all,
                past,
                0,
                Seq::empty(),
            ),
        decreases current@.len() - i,
    {
        let ghost before = views(pairs@);
        assert(all[i as int] == current@[i as int]@);
        let previous = match find_predecessor(ports, &current[i], history) {
            Some(previous) => previous,
            None => {
                return Err(
                    NodeModelError::InvalidRequest {
                        reason: "model service has no retained prior runtime",
                    },
                );
            },
        };
        validate_rollback_previous(ports, &previous)?;
        let pair = NodeModelRollbackPair { current: current[i].copy(), previous };
        pairs.push(pair);
        assert(views(pairs@) =~= before.push(pair@));
        i += 1;
    }
    Ok(pairs)
}

/// The plan of one rollback: every current group of the target with its latest predecessor.
pub open spec fn rollback_planned(
    world: NodeModelWorld,
    service_id: ModelServiceId,
    target_id: Option<Seq<char>>,
) -> Step<RollbackPlanView> {
    let (world, service) = redacted(world.service(service_id));
    match service {
        Err(error) => (world, Err(error)),
        Ok(service) => if service.service.desired_state == ModelServiceDesiredState::Removed {
            (
                world,
                Err(
                    NodeModelError::InvalidRequest {
                        reason: "removed model service has no rollback target",
                    },
                ),
            )
        } else {
            let (world, records) = groups_read(
                world,
                service.service.placement_group_ids,
                0,
                Seq::empty(),
            );
            match records {
                Err(error) => (world, Err(error)),
                Ok(records) => rollback_paired(
                    world,
                    service.service,
                    service_id,
                    target_id,
                    selected(
                        records,
                        |record: PlacementRecordView| in_target(record, target_id),
                    ),
                ),
            }
        },
    }
}

/// The plan of one rollback over known current groups.
pub open spec fn rollback_paired(
    world: NodeModelWorld,
    service: ModelServiceView,
    service_id: ModelServiceId,
    target_id: Option<Seq<char>>,
    current: Seq<PlacementRecordView>,
) -> Step<RollbackPlanView> {
    if current.len() == 0 {
        (
            world,
            Err(
                NodeModelError::InvalidRequest {
                    reason: "model service has no current placement group for rollback",
                },
            ),
        )
    } else {
        let (world, journals) = world.all_journals();
        match journals {
            Err(error) => (world, Err(error)),
            Ok(journals) => {
                let (world, pairs) = pairs_found(
                    world,
                    current,
                    replacement_history(journals, service_id),
                    0,
                    Seq::empty(),
                );
                match pairs {
                    Err(error) => (world, Err(error)),
                    Ok(pairs) => (world, Ok(RollbackPlanView { service, target_id, pairs })),
                }
            },
        }
    }
}

/// Selects one complete latest retained predecessor for every current matching group.
pub fn rollback_plan<P: NodeModelOrchestrationPorts>(
    ports: &mut P,
    service_id: &ModelServiceId,
    target_id: &Option<TargetId>,
) -> (plan: Result<NodeModelRollbackPlan, NodeModelError>)
    ensures
        (final(ports).world(), outcome(plan)) == rollback_planned(
            old(ports).world(),
            *service_id,
            viewed(*target_id),
        ),
{
    let service = known_service(ports, service_id)?.service;
    if service.desired_state == ModelServiceDesiredState::Removed {
        return Err(
            NodeModelError::InvalidRequest {
                reason: "removed model service has no rollback target",
            },
        );
    }
    let records = read_groups(ports, &service.placement_group_ids)?;
    let current = keep_in_target(&records, target_id);
    if current.len() == 0 {
        return Err(
            NodeModelError::InvalidRequest {
                reason: "model service has no current placement group for rollback",
            },
        );
    }
    let journals = ports.all()?;
    let history = history_of(&journals, service_id);
    let pairs = find_pairs(ports, &current, &history)?;
    Ok(NodeModelRollbackPlan { service, target_id: copy_optional(target_id), pairs })
}

/// The preview of one pair.
pub open spec fn pair_preview(pair: RollbackPairView) -> NodeModelRollbackGroupPreviewView {
    NodeModelRollbackGroupPreviewView {
        current_group_id: pair.current.group.placement_group_id,
        previous_group_id: pair.previous.group.placement_group_id,
        node_ids: record_nodes(pair.current),
        current: rollback_runtime_of(pair.current.group.runtime),
        previous: rollback_runtime_of(pair.previous.group.runtime),
    }
}

/// The preview of one rollback plan.
pub open spec fn plan_preview(plan: RollbackPlanView) -> NodeModelRollbackPreviewView {
    NodeModelRollbackPreviewView {
        service_id: plan.service.service_id,
        logical_model: plan.service.logical_model,
        target_id: plan.target_id,
        groups: Seq::new(plan.pairs.len(), |i: int| pair_preview(plan.pairs[i])),
    }
}

/// Projects one rollback plan into its redacted preview.
#[verifier::loop_isolation(false)]
pub fn preview_plan(plan: NodeModelRollbackPlan) -> (preview: NodeModelRollbackPreview)
    ensures
        preview@ == plan_preview(plan@),
{
    let ghost expected = plan_preview(plan@);
    let mut groups: Vec<NodeModelRollbackGroupPreview> = Vec::new();
    let mut i: usize = 0;
    while i < plan.pairs.len()
        invariant
            i <= plan.pairs@.len(),
            groups@.len() == i,
            forall|k: int| 0 <= k < i ==> (#[trigger] groups@[k])@ == expected.groups[k],
        decreases plan.pairs@.len() - i,
    {
        let pair = &plan.pairs[i];
        groups.push(
            NodeModelRollbackGroupPreview::new(
                pair.current.group.placement_group_id,
                pair.previous.group.placement_group_id,
                placement_node_ids(&pair.current),
                rollback_runtime(&pair.current.group.runtime),
                rollback_runtime(&pair.previous.group.runtime),
            ),
        );
        i += 1;
    }
    assert(views(groups@) =~= expected.groups);
    NodeModelRollbackPreview::new(
        plan.service.service_id,
        plan.service.logical_model,
        plan.target_id,
        groups,
    )
}

/// What one rollback journal records of its pairs.
pub struct RollbackPartsView {
    pub groups: Seq<NodeModelInstallGroupView>,
    pub receipts: Seq<NodeModelRuntimeReceiptView>,
    pub states: Seq<InitialGroupState>,
}

/// The receipts of one predecessor: every installation is reused.
pub open spec fn reused_receipts(previous: PlacementRecordView, group_index: int) -> Seq<
    NodeModelRuntimeReceiptView,
> {
    Seq::new(
        previous.placements.len(),
        |i: int|
            NodeModelRuntimeReceiptView {
                group_index: group_index as usize,
                node_id: previous.placements[i].node_id,
                candidate_id: previous.group.runtime.candidate_id,
                installation_id: Some(previous.placements[i].runtime_installation_id),
                disposition: NodeModelRuntimeDisposition::Reused,
            },
    )
}

/// The parts of every pair from one position on.
pub open spec fn pairs_recorded(
    pairs: Seq<RollbackPairView>,
    at: int,
    parts: RollbackPartsView,
) -> Result<RollbackPartsView, NodeModelError>
    decreases pairs.len() - at,
{
    if at < 0 || at >= pairs.len() {
        Ok(parts)
    } else {
        let pair = pairs[at];
        match install_group(
            record_nodes(pair.previous),
            Some(pair.previous.group.runtime.candidate_id),
        ) {
            Err(error) => Err(error),
            Ok(group) => match rollback_intent(pair.current.group.state) {
                Err(error) => Err(error),
                Ok(state) => pairs_recorded(
                    pairs,
                    at + 1,
                    RollbackPartsView {
                        groups: parts.groups.push(group),
                        receipts: parts.receipts + reused_receipts(pair.previous, at),
                        states: parts.states.push(
                            InitialGroupState {
                                placement_group_id: pair.current.group.placement_group_id,
                                state,
                            },
                        ),
                    },
                ),
            },
        }
    }
}

/// No part is recorded yet.
pub open spec fn no_parts() -> RollbackPartsView {
    RollbackPartsView { groups: Seq::empty(), receipts: Seq::empty(), states: Seq::empty() }
}

#[verifier::loop_isolation(false)]
fn append_reused(
    receipts: &mut Vec<NodeModelRuntimeReceipt>,
    previous: &PlacementRecord,
    group_index: usize,
)
    ensures
        views(final(receipts)@) == views(old(receipts)@) + reused_receipts(
            previous@,
            group_index as int,
        ),
{
    let ghost before = views(receipts@);
    let ghost added = reused_receipts(previous@, group_index as int);
    let mut i: usize = 0;
    proof {
        assert(views(receipts@) =~= before + added.take(0));
    }
    while i < previous.placements.len()
        invariant
            i <= previous.placements@.len(),
            views(receipts@) == before + added.take(i as int),
        decreases previous.placements@.len() - i,
    {
        let ghost so_far = views(receipts@);
        let placement = previous.placements[i];
        assert(previous@.placements[i as int] == placement);
        let receipt = NodeModelRuntimeReceipt {
            group_index,
            node_id: placement.node_id,
            candidate_id: previous.group.runtime.candidate_id.copy(),
            installation_id: Some(placement.runtime_installation_id),
            disposition: NodeModelRuntimeDisposition::Reused,
        };
        receipts.push(receipt);
        proof {
            assert(views(receipts@) =~= so_far.push(receipt@));
            assert(receipt@ == added[i as int]);
            assert(added.take(i + 1) =~= added.take(i as int).push(added[i as int]));
            assert(views(receipts@) =~= before + added.take(i + 1));
        }
        i += 1;
    }
    proof {
        assert(added.take(added.len() as int) =~= added);
    }
}

/// What one rollback journal records of its pairs.
pub struct RollbackParts {
    pub groups: Vec<NodeModelInstallGroup>,
    pub receipts: Vec<NodeModelRuntimeReceipt>,
    pub states: Vec<InitialGroupState>,
}

impl View for RollbackParts {
    type V = RollbackPartsView;

    open spec fn view(&self) -> RollbackPartsView {
        RollbackPartsView {
            groups: views(self.groups@),
            receipts: views(self.receipts@),
            states: views(self.states@),
        }
    }
}

#[verifier::loop_isolation(false)]
fn record_pairs(
    pairs: &Vec<NodeModelRollbackPair>,
) -> (parts: Result<RollbackParts, NodeModelError>)
    ensures
        outcome(parts) == pairs_recorded(views(pairs@), 0, no_parts()),
{
    let ghost all = views(pairs@);
    let mut groups: Vec<NodeModelInstallGroup> = Vec::new();
    let mut receipts: Vec<NodeModelRuntimeReceipt> = Vec::new();
    let mut states: Vec<InitialGroupState> = Vec::new();
    let mut i: usize = 0;
    proof {
        assert(views(groups@) =~= no_parts().groups);
        assert(views(receipts@) =~= no_parts().receipts);
        assert(views(states@) =~= no_parts().states);
    }
    while i < pairs.len()
        invariant
            i <= pairs@.len(),
            pairs_recorded(
                all,
                i as int,
                RollbackPartsView {
                    groups: views(groups@),
                    receipts: views(receipts@),
                    states: views(states@),
                },
            ) == pairs_recorded(all, 0, no_parts()),
        decreases pairs@.len() - i,
    {
        let ghost groups_before = views(groups@);
        let ghost states_before = views(states@);
        let pair = &pairs[i];
        assert(all[i as int] == pair@);
        let candidate_id = Some(pair.previous.group.runtime.candidate_id.copy());
        let group = NodeModelInstallGroup::new(placement_node_ids(&pair.previous), candidate_id)?;
        append_reused(&mut receipts, &pair.previous, i);
        let state = rollback_initial_state(pair.current.group.state)?;
        groups.push(group);
        let entry = InitialGroupState {
            placement_group_id: pair.current.group.placement_group_id,
            state,
        };
        states.push(entry);
        assert(views(groups@) =~= groups_before.push(group@));
        assert(views(states@) =~= states_before.push(entry));
        i += 1;
    }
    Ok(RollbackParts { groups, receipts, states })
}

/// A rollback command is committed with its retained installations and derived groups.
pub open spec fn rollback_prepared(
    world: NodeModelWorld,
    identity: NodeModelCommandIdentityView,
    plan: RollbackPlanView,
) -> Step<VersionedNodeModelJournalView> {
    match pairs_recorded(plan.pairs, 0, no_parts()) {
        Err(error) => (world, Err(error)),
        Ok(parts) => {
            let (world, retained) = groups_retained(
                world,
                identity.operation_id,
                parts.states,
                0,
                Seq::empty(),
            );
            match retained {
                Err(error) => (world, Err(error)),
                Ok(retained) => {
                    let (world, now) = world.now();
                    match now {
                        Err(error) => (world, Err(error)),
                        Ok(now) => world.create_journal(
                            NodeModelJournalView {
                                install_groups: parts.groups,
                                rollback_target_id: plan.target_id,
                                retained_groups: retained,
                                runtime_receipts: stable_sort(
                                    parts.receipts,
                                    |receipt: NodeModelRuntimeReceiptView| receipt_key(receipt),
                                ),
                                planned_group_ids: planned_groups(
                                    identity.operation_id,
                                    parts.groups.len(),
                                ),
                                initial_group_states: parts.states,
                                ..journal_prepared(
                                    identity,
                                    NodeModelAction::Rollback,
                                    plan.service.service_id,
                                    plan.service.logical_model,
                                    now,
                                )
                            },
                        ),
                    }
                },
            }
        },
    }
}

/// Persists exact previous installation identities before rollback releases current resources.
pub fn prepare_rollback<P: NodeModelOrchestrationPorts>(
    ports: &mut P,
    identity: NodeModelCommandIdentity,
    plan: NodeModelRollbackPlan,
) -> (journal: Result<VersionedNodeModelJournal, NodeModelError>)
    ensures
        (final(ports).world(), outcome(journal)) == rollback_prepared(
            old(ports).world(),
            identity@,
            plan@,
        ),
{
    let operation_id = identity.operation_id;
    let parts = record_pairs(&plan.pairs)?;
    proof {
        let by_trait = |model: NodeModelRuntimeReceiptView| NodeModelRuntimeReceipt::key(model);
        let by_key = |receipt: NodeModelRuntimeReceiptView| receipt_key(receipt);
        assert(by_trait =~= by_key);
    }
    let receipts = sort_stable(parts.receipts);
    let planned = planned_placement_group_ids(&operation_id, parts.groups.len());
    let retained = retained_groups(ports, &operation_id, &parts.states)?;
    let now = ports.now()?;
    let mut journal = prepared_journal(
        identity,
        NodeModelAction::Rollback,
        plan.service.service_id,
        plan.service.logical_model,
        now,
    );
    journal.install_groups = parts.groups;
    journal.rollback_target_id = plan.target_id;
    journal.retained_groups = retained;
    journal.runtime_receipts = receipts;
    journal.planned_group_ids = planned;
    journal.initial_group_states = parts.states;
    ports.create(journal)
}

// ---------------------------------------------------------------------------
// Removal
// ---------------------------------------------------------------------------

/// What one removal selects: its groups, their states and the nodes that matched.
pub struct RemovalView {
    pub groups: Seq<PlacementGroupId>,
    pub states: Seq<InitialGroupState>,
    pub matched: Seq<NodeId>,
}

/// The selected nodes that one record runs on.
pub open spec fn matched_nodes(record: PlacementRecordView, nodes: Seq<NodeId>) -> Seq<NodeId> {
    selected(
        crate::node_model_rules::assigned_nodes(record.placements),
        |node: NodeId| nodes.contains(node),
    )
}

#[verifier::loop_isolation(false)]
fn match_nodes(record: &PlacementRecord, nodes: &Vec<NodeId>) -> (matched: Vec<NodeId>)
    ensures
        matched@ == matched_nodes(record@, nodes@),
{
    let ghost all = crate::node_model_rules::assigned_nodes(record@.placements);
    let ghost keep = |node: NodeId| nodes@.contains(node);
    let mut matched: Vec<NodeId> = Vec::new();
    let mut i: usize = 0;
    proof {
        assert(matched@ =~= selected(all.take(0), keep));
    }
    while i < record.placements.len()
        invariant
            i <= record.placements@.len(),
            matched@ == selected(all.take(i as int), keep),
        decreases record.placements@.len() - i,
    {
        let node_id = record.placements[i].node_id;
        proof {
            assert(all[i as int] == node_id);
            lemma_selected_step(all, keep, i as int);
        }
        if contains_id(nodes, &node_id) {
            matched.push(node_id);
        }
        i += 1;
    }
    proof {
        assert(all.take(all.len() as int) =~= all);
    }
    matched
}

/// One record is selected: always when everything is, else when a selected node runs it.
pub open spec fn record_selected(
    record: PlacementRecordView,
    selection: NodeModelRemovalSelectionView,
) -> bool {
    match selection {
        NodeModelRemovalSelectionView::All => true,
        NodeModelRemovalSelectionView::Nodes(nodes) => matched_nodes(record, nodes).len() > 0,
    }
}

/// The groups of one service from one position on that a removal selects.
pub open spec fn removal_selected(
    world: NodeModelWorld,
    request: NodeModelRemoveRequestView,
    groups: Seq<PlacementGroupId>,
    at: int,
    removal: RemovalView,
) -> Step<RemovalView>
    decreases groups.len() - at,
{
    if at < 0 || at >= groups.len() {
        (world, Ok(removal))
    } else {
        let (world, record) = required(from_placement(world.group_record(groups[at])));
        match record {
            Err(error) => (world, Err(error)),
            Ok(record) => if record.group.service_id != request.service_id {
                (world, Err(NodeModelError::RecoveryRequired))
            } else {
                let matched = match request.selection {
                    NodeModelRemovalSelectionView::All => removal.matched,
                    NodeModelRemovalSelectionView::Nodes(nodes) => removal.matched + matched_nodes(
                        record,
                        nodes,
                    ),
                };
                removal_selected(
                    world,
                    request,
                    groups,
                    at + 1,
                    if record_selected(record, request.selection) {
                        RemovalView {
                            groups: removal.groups.push(groups[at]),
                            states: removal.states.push(
                                InitialGroupState {
                                    placement_group_id: groups[at],
                                    state: record.group.state,
                                },
                            ),
                            matched,
                        }
                    } else {
                        RemovalView { matched, ..removal }
                    },
                )
            },
        }
    }
}

/// Nothing is selected yet.
pub open spec fn no_removal() -> RemovalView {
    RemovalView { groups: Seq::empty(), states: Seq::empty(), matched: Seq::empty() }
}

/// What one removal selects.
pub struct Removal {
    pub groups: Vec<PlacementGroupId>,
    pub states: Vec<InitialGroupState>,
    pub matched: Vec<NodeId>,
}

impl View for Removal {
    type V = RemovalView;

    open spec fn view(&self) -> RemovalView {
        RemovalView {
            groups: self.groups@,
            states: views(self.states@),
            matched: self.matched@,
        }
    }
}

#[verifier::loop_isolation(false)]
fn select_removal<P: NodeModelOrchestrationPorts>(
    ports: &mut P,
    request: &NodeModelRemoveRequest,
    groups: &Vec<PlacementGroupId>,
) -> (removal: Result<Removal, NodeModelError>)
    ensures
        (final(ports).world(), outcome(removal)) == removal_selected(
            old(ports).world(),
            request@,
            groups@,
            0,
            no_removal(),
        ),
{
    let ghost start = ports.world();
    let mut chosen: Vec<PlacementGroupId> = Vec::new();
    let mut states: Vec<InitialGroupState> = Vec::new();
    let mut matched: Vec<NodeId> = Vec::new();
    let mut i: usize = 0;
    proof {
        assert(chosen@ =~= no_removal().groups);
        assert(views(states@) =~= no_removal().states);
        assert(matched@ =~= no_removal().matched);
    }
    while i < groups.len()
        invariant
            i <= groups@.len(),
            removal_selected(
                ports.world(),
                request@,
                groups@,
                i as int,
                RemovalView { groups: chosen@, states: views(states@), matched: matched@ },
            ) == removal_selected(start, request@, groups@, 0, no_removal()),
        decreases groups@.len() - i,
    {
        let ghost states_before = views(states@);
        let group_id = groups[i];
        let record = known_group(ports, &group_id)?;
        if record.group.service_id != request.service_id {
            return Err(NodeModelError::RecoveryRequired);
        }
        let is_selected = match &request.selection {
            NodeModelRemovalSelection::All => true,
            NodeModelRemovalSelection::Nodes(nodes) => {
                let mut matching = match_nodes(&record, nodes);
                let any = matching.len() > 0;
                matched.append(&mut matching);
                any
            },
        };
        if is_selected {
            let entry = InitialGroupState {
                placement_group_id: group_id,
                state: record.group.state,
            };
            chosen.push(group_id);
            states.push(entry);
            assert(views(states@) =~= states_before.push(entry));
        }
        i += 1;
    }
    Ok(Removal { groups: chosen, states, matched })
}

/// A selection that hits a group, and every selected node of it.
pub open spec fn removal_matches(removal: RemovalView, nodes: Seq<NodeId>) -> bool {
    &&& removal.groups.len() > 0
    &&& forall|i: int| 0 <= i < nodes.len() ==> removal.matched.contains(#[trigger] nodes[i])
}

#[verifier::loop_isolation(false)]
fn removal_is_matched(removal: &Removal, nodes: &Vec<NodeId>) -> (matches: bool)
    ensures
        matches == removal_matches(removal@, nodes@),
{
    if removal.groups.len() == 0 {
        return false;
    }
    let mut i: usize = 0;
    while i < nodes.len()
        invariant
            i <= nodes@.len(),
            forall|k: int| 0 <= k < i ==> removal@.matched.contains(#[trigger] nodes@[k]),
        decreases nodes@.len() - i,
    {
        if !contains_id(&removal.matched, &nodes[i]) {
            assert(!removal@.matched.contains(nodes@[i as int]));
            return false;
        }
        i += 1;
    }
    true
}

/// A removal command is replayed from its journal or committed with its selected groups.
pub open spec fn remove_prepared(
    world: NodeModelWorld,
    request: NodeModelRemoveRequestView,
) -> Step<VersionedNodeModelJournalView> {
    let (world, existing) = world.read_journal(request.identity.operation_id);
    match existing {
        Err(error) => (world, Err(error)),
        Ok(Some(existing)) => if remove_matches(existing.journal, request) {
            (world, Ok(existing))
        } else {
            (world, Err(NodeModelError::JournalConflict))
        },
        Ok(None) => {
            let (world, service) = redacted(world.service(request.service_id));
            match service {
                Err(error) => (world, Err(error)),
                Ok(service) => {
                    let (world, removal) = removal_selected(
                        world,
                        request,
                        service.service.placement_group_ids,
                        0,
                        no_removal(),
                    );
                    match removal {
                        Err(error) => (world, Err(error)),
                        Ok(removal) => removal_committed(
                            world,
                            request,
                            service.service.logical_model,
                            removal,
                        ),
                    }
                },
            }
        },
    }
}

/// A removal whose selection matches is committed.
pub open spec fn removal_committed(
    world: NodeModelWorld,
    request: NodeModelRemoveRequestView,
    logical_model: Seq<char>,
    removal: RemovalView,
) -> Step<VersionedNodeModelJournalView> {
    if !removal_matches(removal, request.selection.nodes()) {
        (
            world,
            Err(
                NodeModelError::InvalidRequest {
                    reason: "model removal selection does not match an installed placement group",
                },
            ),
        )
    } else {
        let (world, now) = world.now();
        match now {
            Err(error) => (world, Err(error)),
            Ok(now) => world.create_journal(
                NodeModelJournalView {
                    placement_group_ids: removal.groups,
                    initial_group_states: removal.states,
                    removal_node_ids: request.selection.nodes(),
                    removal_runtime_retention: request.runtime_retention,
                    ..journal_prepared(
                        request.identity,
                        NodeModelAction::Remove,
                        request.service_id,
                        logical_model,
                        now,
                    )
                },
            ),
        }
    }
}

/// Commits one exact complete or node-scoped removal plan before provider mutation.
pub fn prepare_remove<P: NodeModelOrchestrationPorts>(
    ports: &mut P,
    request: NodeModelRemoveRequest,
) -> (journal: Result<VersionedNodeModelJournal, NodeModelError>)
    ensures
        (final(ports).world(), outcome(journal)) == remove_prepared(old(ports).world(), request@),
{
    match ports.read(&request.identity.operation_id)? {
        Some(existing) => {
            if remove_request_matches(&existing.journal, &request) {
                Ok(existing)
            } else {
                Err(NodeModelError::JournalConflict)
            }
        },
        None => {
            let nodes = removal_node_ids(&request);
            let service = known_service(ports, &request.service_id)?.service;
            let removal = select_removal(ports, &request, &service.placement_group_ids)?;
            if !removal_is_matched(&removal, &nodes) {
                return Err(
                    NodeModelError::InvalidRequest {
                        reason: "model removal selection does not match an installed placement group",
                    },
                );
            }
            let now = ports.now()?;
            let mut journal = prepared_journal(
                request.identity,
                NodeModelAction::Remove,
                request.service_id,
                service.logical_model,
                now,
            );
            journal.placement_group_ids = removal.groups;
            journal.initial_group_states = removal.states;
            journal.removal_node_ids = nodes;
            journal.removal_runtime_retention = request.runtime_retention;
            ports.create(journal)
        },
    }
}

// ---------------------------------------------------------------------------
// Existing services
// ---------------------------------------------------------------------------

/// The states of every group of one service from one position on.
pub open spec fn states_read(
    world: NodeModelWorld,
    service_id: ModelServiceId,
    groups: Seq<PlacementGroupId>,
    at: int,
    states: Seq<InitialGroupState>,
) -> Step<Seq<InitialGroupState>>
    decreases groups.len() - at,
{
    if at < 0 || at >= groups.len() {
        (world, Ok(states))
    } else {
        let (world, record) = required(from_placement(world.group_record(groups[at])));
        match record {
            Err(error) => (world, Err(error)),
            Ok(record) => if record.group.service_id != service_id {
                (world, Err(NodeModelError::RecoveryRequired))
            } else {
                states_read(
                    world,
                    service_id,
                    groups,
                    at + 1,
                    states.push(
                        InitialGroupState {
                            placement_group_id: groups[at],
                            state: record.group.state,
                        },
                    ),
                )
            },
        }
    }
}

#[verifier::loop_isolation(false)]
fn read_states<P: NodeModelOrchestrationPorts>(
    ports: &mut P,
    service_id: &ModelServiceId,
    groups: &Vec<PlacementGroupId>,
) -> (states: Result<Vec<InitialGroupState>, NodeModelError>)
    ensures
        (final(ports).world(), listed(states)) == states_read(
            old(ports).world(),
            *service_id,
            groups@,
            0,
            Seq::empty(),
        ),
{
    let ghost start = ports.world();
    let mut states: Vec<InitialGroupState> = Vec::new();
    let mut i: usize = 0;
    proof {
        assert(views(states@) =~= Seq::<InitialGroupState>::empty());
    }
    while i < groups.len()
        invariant
            i <= groups@.len(),
            states_read(ports.world(), *service_id, groups@, i as int, views(states@))
                == states_read(start, *service_id, groups@, 0, Seq::empty()),
        decreases groups@.len() - i,
    {
        let ghost before = views(states@);
        let group_id = groups[i];
        let record = known_group(ports, &group_id)?;
        if record.group.service_id != *service_id {
            return Err(NodeModelError::RecoveryRequired);
        }
        let entry = InitialGroupState { placement_group_id: group_id, state: record.group.state };
        states.push(entry);
        assert(views(states@) =~= before.push(entry));
        i += 1;
    }
    Ok(states)
}

/// A lifecycle command is replayed from its journal or committed with its current states.
pub open spec fn existing_prepared(
    world: NodeModelWorld,
    identity: NodeModelCommandIdentityView,
    service_id: ModelServiceId,
    action: NodeModelAction,
) -> Step<VersionedNodeModelJournalView> {
    let (world, existing) = world.read_journal(identity.operation_id);
    match existing {
        Err(error) => (world, Err(error)),
        Ok(Some(existing)) => if existing_matches(existing.journal, identity, service_id, action) {
            (world, Ok(existing))
        } else {
            (world, Err(NodeModelError::JournalConflict))
        },
        Ok(None) => {
            let (world, service) = redacted(world.service(service_id));
            match service {
                Err(error) => (world, Err(error)),
                Ok(service) => if service.service.desired_state
                    == ModelServiceDesiredState::Removed && action != NodeModelAction::Remove {
                    (
                        world,
                        Err(
                            NodeModelError::InvalidRequest {
                                reason: "removed model service cannot change lifecycle",
                            },
                        ),
                    )
                } else {
                    let groups = service.service.placement_group_ids;
                    let (world, states) = states_read(world, service_id, groups, 0, Seq::empty());
                    match states {
                        Err(error) => (world, Err(error)),
                        Ok(states) => {
                            let (world, now) = world.now();
                            match now {
                                Err(error) => (world, Err(error)),
                                Ok(now) => world.create_journal(
                                    NodeModelJournalView {
                                        placement_group_ids: groups,
                                        initial_group_states: states,
                                        ..journal_prepared(
                                            identity,
                                            action,
                                            service_id,
                                            service.service.logical_model,
                                            now,
                                        )
                                    },
                                ),
                            }
                        },
                    }
                },
            }
        },
    }
}

/// Commits one exact existing-service command and its pre-command group states.
pub fn prepare_existing<P: NodeModelOrchestrationPorts>(
    ports: &mut P,
    identity: NodeModelCommandIdentity,
    service_id: &ModelServiceId,
    action: NodeModelAction,
) -> (journal: Result<VersionedNodeModelJournal, NodeModelError>)
    ensures
        (final(ports).world(), outcome(journal)) == existing_prepared(
            old(ports).world(),
            identity@,
            *service_id,
            action,
        ),
{
    match ports.read(&identity.operation_id)? {
        Some(existing) => {
            if existing_request_matches(&existing.journal, &identity, service_id, action) {
                Ok(existing)
            } else {
                Err(NodeModelError::JournalConflict)
            }
        },
        None => {
            let service = known_service(ports, service_id)?.service;
            if service.desired_state == ModelServiceDesiredState::Removed && action
                != NodeModelAction::Remove {
                return Err(
                    NodeModelError::InvalidRequest {
                        reason: "removed model service cannot change lifecycle",
                    },
                );
            }
            let states = read_states(ports, service_id, &service.placement_group_ids)?;
            let now = ports.now()?;
            let mut journal = prepared_journal(
                identity,
                action,
                *service_id,
                service.logical_model,
                now,
            );
            journal.placement_group_ids = service.placement_group_ids;
            journal.initial_group_states = states;
            ports.create(journal)
        },
    }
}

} // verus!
