//! The journals that model commands write can be read back: those that commands begin with, and
//! every successor.

use vstd::prelude::*;

use crate::entity::{
    ModelServiceView, PlacementGroupState, PlacementRecordView, PlacementRequestView,
};
use crate::identity::{
    law_sorted_ids, sorted_ids, strictly_increasing, ModelServiceId, NodeId, OperationId,
    PlacementGroupId, UnixMilliseconds,
};
use crate::node_model_contract::{
    bounded_nodes, install_group, planned_groups, planned_restoration_group, receipt_key,
    retained_group, retained_node_ids, InitialGroupState, NodeModelAction,
    NodeModelCommandIdentityView, NodeModelError, NodeModelInstallGroupView,
    NodeModelInstallRequestView, NodeModelJournalState, NodeModelJournalView,
    NodeModelRemovalRetention, NodeModelRemoveRequestView, NodeModelRetainedGroupView,
    NodeModelRuntimeDisposition, NodeModelRuntimeReceiptView, NodeModelUpdateRequestView,
    VersionedNodeModelJournalView, MAX_INSTALL_GROUPS, MAX_NODES_PER_GROUP,
};
use crate::node_model_coordinator::journal_advanced;
use crate::node_model_execution::{
    group_staged, other_receipts, receipt_saved, receipts_with, staged_or_reread,
};
use crate::node_model_groups::{from_placement, redacted, required};
use crate::node_model_journal::{
    failure_recorded, initial_ids, journal_coherent, journal_from, journal_valid,
    law_journal_round_trip, optional_named, receipt_owned, record_of, restoration_ids,
    retained_consistent, same_members, source_ids,
};
use crate::node_model_laws::{join, law_receipts_stay_sorted, only};
use crate::node_model_planning::{
    groups_compared, groups_read, groups_retained, in_target, journal_prepared, no_parts,
    pairs_found, pairs_recorded, placements_compared, predecessor_found, previous_checked,
    removal_selected, replacement_history, retained_assignments, retained_source, reused_receipts,
    rollback_planned, rollback_prepared, states_read, update_planned, update_prepared, RemovalView,
    RollbackPairView, RollbackPartsView, RollbackPlanView, UpdatePlanView,
};
use crate::node_model_rules::{assigned_nodes, record_nodes, rollback_intent, rollback_pair_valid};
use crate::node_model_world::{NodeModelCall, NodeModelWorld};
use crate::sequence::{
    is_strictly_sorted, key_le, key_lt, lemma_selected_members, lemma_stable_sort, selected,
    stable_sort,
};

verus! {

// ---------------------------------------------------------------------------
// Readable journals
// ---------------------------------------------------------------------------

/// A journal whose stored form is read back as the journal itself: it is valid, and every part of it
/// was built from accepted names and bounds.
pub open spec fn readable(journal: NodeModelJournalView) -> bool {
    journal_valid(journal) && journal_coherent(journal)
}

/// Calls that write no journal but readable ones.
pub open spec fn readable_writes() -> spec_fn(NodeModelCall) -> bool {
    |call: NodeModelCall|
        match call {
            NodeModelCall::CreateJournal { journal } => readable(journal),
            NodeModelCall::ReplaceJournal { journal, .. } => readable(journal),
            _ => true,
        }
}

/// A readable journal survives its storage.
pub proof fn law_readable_journals_are_read_back(journal: NodeModelJournalView)
    requires
        readable(journal),
    ensures
        journal_from(record_of(journal)) == Ok::<NodeModelJournalView, NodeModelError>(journal),
{
    law_journal_round_trip(journal);
}

/// Every group of a command is bounded and names its candidate, if it names one.
pub open spec fn groups_coherent(groups: Seq<NodeModelInstallGroupView>) -> bool {
    forall|i: int|
        0 <= i < groups.len() ==> bounded_nodes((#[trigger] groups[i]).node_ids) && optional_named(
            groups[i].explicit_candidate_id,
        )
}

/// A receipt names its candidate, and its installation unless that is still pending.
pub open spec fn receipt_coherent(receipt: NodeModelRuntimeReceiptView) -> bool {
    &&& receipt.candidate_id.len() > 0
    &&& (receipt.disposition == NodeModelRuntimeDisposition::InstallPending) != (
    receipt.installation_id is Some)
}

// ---------------------------------------------------------------------------
// Installs, lifecycle commands and removals
// ---------------------------------------------------------------------------

/// The journal that a new install command commits is readable, so long as its derived group
/// identities do not collide.
pub proof fn law_install_journal_is_readable(
    request: NodeModelInstallRequestView,
    now: UnixMilliseconds,
)
    requires
        request.identity.idempotency_key.len() > 0,
        request.logical_model.len() > 0,
        groups_coherent(request.groups),
        0 < request.groups.len() <= MAX_INSTALL_GROUPS,
        now.value > 0,
        planned_groups(request.identity.operation_id, request.groups.len()).no_duplicates(),
    ensures
        readable(
            NodeModelJournalView {
                install_groups: request.groups,
                planned_group_ids: planned_groups(
                    request.identity.operation_id,
                    request.groups.len(),
                ),
                ..journal_prepared(
                    request.identity,
                    NodeModelAction::Install,
                    request.service_id,
                    request.logical_model,
                    now,
                )
            },
        ),
{
    let planned = planned_groups(request.identity.operation_id, request.groups.len());
    assert(planned.take(0) =~= Seq::<PlacementGroupId>::empty());
}

/// The journal that a new lifecycle command commits is readable when the service's groups are
/// bounded and distinct.
pub proof fn law_lifecycle_journal_is_readable(
    identity: NodeModelCommandIdentityView,
    service_id: ModelServiceId,
    logical_model: Seq<char>,
    action: NodeModelAction,
    states: Seq<InitialGroupState>,
    now: UnixMilliseconds,
)
    requires
        identity.idempotency_key.len() > 0,
        logical_model.len() > 0,
        !action.stages(),
        states.len() <= MAX_INSTALL_GROUPS,
        initial_ids(states).no_duplicates(),
        now.value > 0,
    ensures
        readable(
            NodeModelJournalView {
                placement_group_ids: initial_ids(states),
                initial_group_states: states,
                ..journal_prepared(identity, action, service_id, logical_model, now)
            },
        ),
{
}

proof fn states_cover(
    world: NodeModelWorld,
    service_id: ModelServiceId,
    groups: Seq<PlacementGroupId>,
    at: int,
    states: Seq<InitialGroupState>,
)
    requires
        0 <= at <= groups.len(),
        initial_ids(states) == groups.take(at),
    ensures
        states_read(world, service_id, groups, at, states).1 matches Ok(read) ==> initial_ids(read)
            == groups,
    decreases groups.len() - at,
{
    if at < groups.len() {
        let (next, record) = required(from_placement(world.group_record(groups[at])));
        if let Ok(record) = record {
            let more = states.push(
                InitialGroupState { placement_group_id: groups[at], state: record.group.state },
            );
            assert(initial_ids(states).len() == at);
            assert forall|k: int| 0 <= k <= at implies initial_ids(more)[k] == groups.take(
                at + 1,
            )[k] by {
                if k < at {
                    assert(initial_ids(states)[k] == groups.take(at)[k]);
                }
            }
            assert(initial_ids(more) =~= groups.take(at + 1));
            states_cover(next, service_id, groups, at + 1, more);
        }
    } else {
        assert(groups.take(at) =~= groups);
    }
}

/// A lifecycle command records the state of exactly the groups that it targets.
pub proof fn law_lifecycle_states_cover_groups(
    world: NodeModelWorld,
    service_id: ModelServiceId,
    groups: Seq<PlacementGroupId>,
)
    ensures
        states_read(world, service_id, groups, 0, Seq::empty()).1 matches Ok(states)
            ==> initial_ids(states) == groups,
{
    assert(initial_ids(Seq::empty()) =~= groups.take(0));
    states_cover(world, service_id, groups, 0, Seq::empty());
}

/// What a removal selected so far of the first groups: some of them, each once, with its state.
pub open spec fn removal_covered(
    removal: RemovalView,
    groups: Seq<PlacementGroupId>,
    at: int,
) -> bool {
    &&& removal.groups == initial_ids(removal.states)
    &&& removal.groups.len() <= at
    &&& removal.groups.no_duplicates()
    &&& forall|i: int|
        0 <= i < removal.groups.len() ==> groups.take(at).contains(#[trigger] removal.groups[i])
}

proof fn removal_covers(
    world: NodeModelWorld,
    request: NodeModelRemoveRequestView,
    groups: Seq<PlacementGroupId>,
    at: int,
    removal: RemovalView,
)
    requires
        0 <= at <= groups.len(),
        groups.no_duplicates(),
        removal_covered(removal, groups, at),
    ensures
        removal_selected(world, request, groups, at, removal).1 matches Ok(selection)
            ==> removal_covered(selection, groups, groups.len() as int),
    decreases groups.len() - at,
{
    if at < groups.len() {
        let (next, record) = required(from_placement(world.group_record(groups[at])));
        if let Ok(record) = record {
            if record.group.service_id == request.service_id {
                let matched = match request.selection {
                    crate::node_model_contract::NodeModelRemovalSelectionView::All => {
                        removal.matched
                    },
                    crate::node_model_contract::NodeModelRemovalSelectionView::Nodes(nodes) => {
                        removal.matched + crate::node_model_planning::matched_nodes(record, nodes)
                    },
                };
                let longer = RemovalView {
                    groups: removal.groups.push(groups[at]),
                    states: removal.states.push(
                        InitialGroupState {
                            placement_group_id: groups[at],
                            state: record.group.state,
                        },
                    ),
                    matched,
                };
                let taken = groups.take(at);
                let next_taken = groups.take(at + 1);
                assert(next_taken =~= taken.push(groups[at]));
                assert(!taken.contains(groups[at])) by {
                    if taken.contains(groups[at]) {
                        let k = choose|k: int| 0 <= k < at && taken[k] == groups[at];
                        assert(groups[k] == groups[at]);
                    }
                }
                assert(longer.groups =~= initial_ids(longer.states)) by {
                    assert forall|i: int| 0 <= i < longer.groups.len() implies longer.groups[i]
                        == initial_ids(longer.states)[i] by {
                        if i < removal.groups.len() {
                            assert(removal.groups[i] == initial_ids(removal.states)[i]);
                        }
                    }
                }
                assert forall|i: int|
                    0 <= i < longer.groups.len() implies next_taken.contains(
                    #[trigger] longer.groups[i],
                ) by {
                    if i < removal.groups.len() {
                        assert(taken.contains(removal.groups[i]));
                        let k = choose|k: int| 0 <= k < at && taken[k] == removal.groups[i];
                        assert(next_taken[k] == removal.groups[i]);
                    } else {
                        assert(next_taken[at] == groups[at]);
                    }
                }
                assert(longer.groups.no_duplicates()) by {
                    assert forall|i: int, j: int|
                        0 <= i < j < longer.groups.len() implies longer.groups[i]
                        != longer.groups[j] by {
                        if j == removal.groups.len() {
                            assert(taken.contains(removal.groups[i]));
                        }
                    }
                }
                assert(removal_covered(longer, groups, at + 1));
                let same = RemovalView { matched, ..removal };
                assert forall|i: int|
                    0 <= i < same.groups.len() implies next_taken.contains(
                    #[trigger] same.groups[i],
                ) by {
                    assert(taken.contains(removal.groups[i]));
                    let k = choose|k: int| 0 <= k < at && taken[k] == removal.groups[i];
                    assert(next_taken[k] == removal.groups[i]);
                }
                assert(removal_covered(same, groups, at + 1));
                removal_covers(next, request, groups, at + 1, longer);
                removal_covers(next, request, groups, at + 1, same);
            }
        }
    }
}

/// The journal that a new removal command commits is readable when the service's groups are bounded
/// and distinct and the selected nodes are in order.
pub proof fn law_removal_journal_is_readable(
    world: NodeModelWorld,
    request: NodeModelRemoveRequestView,
    logical_model: Seq<char>,
    groups: Seq<PlacementGroupId>,
    now: UnixMilliseconds,
)
    requires
        request.identity.idempotency_key.len() > 0,
        logical_model.len() > 0,
        groups.len() <= MAX_INSTALL_GROUPS,
        groups.no_duplicates(),
        request.selection.nodes().len() <= MAX_NODES_PER_GROUP,
        strictly_increasing(request.selection.nodes()),
        now.value > 0,
    ensures
        removal_selected(
            world,
            request,
            groups,
            0,
            crate::node_model_planning::no_removal(),
        ).1 matches Ok(removal) ==> readable(
            NodeModelJournalView {
                placement_group_ids: removal.groups,
                initial_group_states: removal.states,
                removal_node_ids: request.selection.nodes(),
                removal_runtime_retention: request.runtime_retention,
                ..journal_prepared(
                    request.identity,
                    NodeModelAction::Remove,
                    request.service_id,
                    logical_model,
                    now,
                )
            },
        ),
{
    let none = crate::node_model_planning::no_removal();
    assert(none.groups =~= initial_ids(none.states));
    removal_covers(world, request, groups, 0, none);
}

// ---------------------------------------------------------------------------
// Updates
// ---------------------------------------------------------------------------

/// Every time that the clock answers from now on is at or after one moment.
pub open spec fn clock_from(world: NodeModelWorld, start: UnixMilliseconds) -> bool {
    forall|at: nat|
        world.calls.len() <= at ==> ((#[trigger] (world.script.now)(at)) matches Ok(now)
            ==> start.value <= now.value)
}

/// The derived identities of one replacement command do not collide: the planned groups are
/// distinct, the restoration groups are distinct, and none is the group that it restores.
pub open spec fn identities_apart(
    operation_id: OperationId,
    states: Seq<InitialGroupState>,
) -> bool {
    &&& planned_groups(operation_id, states.len()).no_duplicates()
    &&& forall|i: int, j: int|
        0 <= i < j < states.len() ==> #[trigger] planned_restoration_group(operation_id, i as nat)
            != #[trigger] planned_restoration_group(operation_id, j as nat)
    &&& forall|i: int|
        0 <= i < states.len() ==> (#[trigger] states[i]).placement_group_id
            != planned_restoration_group(operation_id, i as nat)
}

/// The groups that were retained still run on exactly the nodes that the command plans for.
pub open spec fn nodes_kept(
    retained: Seq<NodeModelRetainedGroupView>,
    groups: Seq<NodeModelInstallGroupView>,
) -> bool {
    forall|i: int|
        0 <= i < retained.len() && i < groups.len() ==> same_members(
            retained_node_ids((#[trigger] retained[i]).nodes),
            groups[i].node_ids,
        )
}

/// The retained groups follow the recorded states, each under its derived restoration identity.
pub open spec fn follows_states(
    retained: Seq<NodeModelRetainedGroupView>,
    operation_id: OperationId,
    states: Seq<InitialGroupState>,
) -> bool {
    forall|i: int|
        0 <= i < retained.len() ==> {
            &&& (#[trigger] retained[i]).source_group_id == states[i].placement_group_id
            &&& retained[i].restoration_group_id == planned_restoration_group(
                operation_id,
                i as nat,
            )
            &&& retained[i].initial_state == states[i].state
            &&& retained_group(
                retained[i].source_group_id,
                retained[i].restoration_group_id,
                retained[i].initial_state,
                retained[i].nodes,
            ) is Ok
        }
}

proof fn lemma_retained_follow_states(
    world: NodeModelWorld,
    operation_id: OperationId,
    states: Seq<InitialGroupState>,
    at: int,
    groups: Seq<NodeModelRetainedGroupView>,
)
    requires
        0 <= at <= states.len(),
        groups.len() == at,
        follows_states(groups, operation_id, states),
    ensures
        ({
            let (after, retained) = groups_retained(world, operation_id, states, at, groups);
            &&& only(world, after, readable_writes())
            &&& retained matches Ok(retained) ==> retained.len() == states.len() && follows_states(
                retained,
                operation_id,
                states,
            )
        }),
    decreases states.len() - at,
{
    if at < states.len() {
        let (next, record) = required(
            from_placement(world.group_record(states[at].placement_group_id)),
        );
        if let Ok(record) = record {
            let group = retained_group(
                states[at].placement_group_id,
                planned_restoration_group(operation_id, at as nat),
                states[at].state,
                retained_assignments(record.placements),
            );
            if let Ok(group) = group {
                let more = groups.push(group);
                assert(follows_states(more, operation_id, states)) by {
                    assert forall|i: int| 0 <= i < more.len() implies {
                        &&& (#[trigger] more[i]).source_group_id == states[i].placement_group_id
                        &&& more[i].restoration_group_id == planned_restoration_group(
                            operation_id,
                            i as nat,
                        )
                        &&& more[i].initial_state == states[i].state
                        &&& retained_group(
                            more[i].source_group_id,
                            more[i].restoration_group_id,
                            more[i].initial_state,
                            more[i].nodes,
                        ) is Ok
                    } by {
                        if i < groups.len() {
                            assert(more[i] == groups[i]);
                        }
                    }
                }
                lemma_retained_follow_states(next, operation_id, states, at + 1, more);
                let after = groups_retained(next, operation_id, states, at + 1, more).0;
                join(world, next, after, readable_writes());
            }
        }
    }
}

proof fn lemma_replacement_readable(journal: NodeModelJournalView)
    requires
        journal.idempotency_key.len() > 0,
        journal.logical_model.len() > 0,
        optional_named(journal.rollback_target_id),
        groups_coherent(journal.install_groups),
        forall|i: int|
            0 <= i < journal.runtime_receipts.len() ==> receipt_coherent(
                #[trigger] journal.runtime_receipts[i],
            ),
        journal.action == NodeModelAction::Update || journal.action == NodeModelAction::Rollback,
        journal.action == NodeModelAction::Update ==> journal.rollback_target_id is None,
        journal.state == NodeModelJournalState::Prepared,
        journal.failure_code is None,
        0 < journal.created_at.value,
        journal.created_at == journal.updated_at,
        0 < journal.install_groups.len() <= MAX_INSTALL_GROUPS,
        journal.initial_group_states.len() == journal.install_groups.len(),
        journal.retained_groups.len() == journal.install_groups.len(),
        journal.planned_group_ids == planned_groups(
            journal.operation_id,
            journal.install_groups.len(),
        ),
        journal.placement_group_ids.len() == 0,
        journal.removal_node_ids.len() == 0,
        journal.removal_runtime_retention
            == NodeModelRemovalRetention::RemoveUnreferencedRuntimes,
        initial_ids(journal.initial_group_states).no_duplicates(),
        identities_apart(journal.operation_id, journal.initial_group_states),
        follows_states(
            journal.retained_groups,
            journal.operation_id,
            journal.initial_group_states,
        ),
        nodes_kept(journal.retained_groups, journal.install_groups),
        is_strictly_sorted(
            journal.runtime_receipts,
            |receipt: NodeModelRuntimeReceiptView| receipt_key(receipt),
        ),
        forall|i: int|
            0 <= i < journal.runtime_receipts.len() ==> receipt_owned(
                journal,
                #[trigger] journal.runtime_receipts[i],
            ),
    ensures
        readable(journal),
{
    let retained = journal.retained_groups;
    let states = journal.initial_group_states;
    assert(journal.placement_group_ids =~= journal.planned_group_ids.take(0));
    assert(source_ids(retained) =~= initial_ids(states)) by {
        assert forall|i: int| 0 <= i < retained.len() implies source_ids(retained)[i]
            == initial_ids(states)[i] by {
            assert(retained[i].source_group_id == states[i].placement_group_id);
        }
    }
    assert(restoration_ids(retained).no_duplicates()) by {
        let ids = restoration_ids(retained);
        assert forall|i: int, j: int| 0 <= i < ids.len() && 0 <= j < ids.len() && i != j implies ids[i]
            != ids[j] by {
            assert(retained[i].restoration_group_id == planned_restoration_group(
                journal.operation_id,
                i as nat,
            ));
            assert(retained[j].restoration_group_id == planned_restoration_group(
                journal.operation_id,
                j as nat,
            ));
        }
    }
    assert forall|i: int| 0 <= i < retained.len() implies #[trigger] retained_consistent(
        journal,
        i,
    ) by {
        assert(retained[i].source_group_id == states[i].placement_group_id);
        assert(states[i].placement_group_id != planned_restoration_group(
            journal.operation_id,
            i as nat,
        ));
    }
}

/// What one update has planned so far of the first groups: some of them, each once.
pub open spec fn plan_covered(
    groups: Seq<NodeModelInstallGroupView>,
    states: Seq<InitialGroupState>,
    ids: Seq<PlacementGroupId>,
    at: int,
) -> bool {
    &&& groups.len() == states.len()
    &&& groups_coherent(groups)
    &&& states.len() <= at
    &&& initial_ids(states).no_duplicates()
    &&& forall|i: int|
        0 <= i < states.len() ==> ids.take(at).contains((#[trigger] states[i]).placement_group_id)
}

proof fn lemma_plan_covered_later(
    groups: Seq<NodeModelInstallGroupView>,
    states: Seq<InitialGroupState>,
    ids: Seq<PlacementGroupId>,
    at: int,
)
    requires
        0 <= at < ids.len(),
        plan_covered(groups, states, ids, at),
    ensures
        plan_covered(groups, states, ids, at + 1),
{
    assert forall|i: int| 0 <= i < states.len() implies ids.take(at + 1).contains(
        (#[trigger] states[i]).placement_group_id,
    ) by {
        let id = states[i].placement_group_id;
        assert(ids.take(at).contains(id));
        let k = choose|k: int| 0 <= k < at && ids.take(at)[k] == id;
        assert(ids.take(at + 1)[k] == id);
    }
}

proof fn lemma_plan_keeps_service(
    world: NodeModelWorld,
    service: ModelServiceView,
    service_id: ModelServiceId,
    explicit_candidate_id: Option<Seq<char>>,
    at: int,
    groups: Seq<NodeModelInstallGroupView>,
    states: Seq<InitialGroupState>,
)
    ensures
        groups_compared(
            world,
            service,
            service_id,
            explicit_candidate_id,
            at,
            groups,
            states,
        ).1 matches Ok(plan) ==> plan.service == service,
    decreases service.placement_group_ids.len() - at,
{
    if 0 <= at < service.placement_group_ids.len() {
        let group_id = service.placement_group_ids[at];
        let (next, record) = required(from_placement(world.group_record(group_id)));
        if let Ok(record) = record {
            let (later, compared) = placements_compared(
                next,
                service.logical_model,
                explicit_candidate_id,
                record.placements,
                0,
                Seq::empty(),
                false,
            );
            if let Ok(compared) = compared {
                lemma_plan_keeps_service(
                    later,
                    service,
                    service_id,
                    explicit_candidate_id,
                    at + 1,
                    groups,
                    states,
                );
                if let Ok(group) = install_group(compared.0, explicit_candidate_id) {
                    let state = InitialGroupState {
                        placement_group_id: group_id,
                        state: record.group.state,
                    };
                    lemma_plan_keeps_service(
                        later,
                        service,
                        service_id,
                        explicit_candidate_id,
                        at + 1,
                        groups.push(group),
                        states.push(state),
                    );
                }
            }
        }
    }
}

proof fn lemma_plan_covers(
    world: NodeModelWorld,
    service: ModelServiceView,
    service_id: ModelServiceId,
    explicit_candidate_id: Option<Seq<char>>,
    at: int,
    groups: Seq<NodeModelInstallGroupView>,
    states: Seq<InitialGroupState>,
)
    requires
        0 <= at <= service.placement_group_ids.len(),
        service.placement_group_ids.no_duplicates(),
        optional_named(explicit_candidate_id),
        plan_covered(groups, states, service.placement_group_ids, at),
    ensures
        groups_compared(
            world,
            service,
            service_id,
            explicit_candidate_id,
            at,
            groups,
            states,
        ).1 matches Ok(plan) ==> plan_covered(
            plan.groups,
            plan.states,
            service.placement_group_ids,
            service.placement_group_ids.len() as int,
        ),
    decreases service.placement_group_ids.len() - at,
{
    let ids = service.placement_group_ids;
    if at < ids.len() {
        let group_id = ids[at];
        let (next, record) = required(from_placement(world.group_record(group_id)));
        if let Ok(record) = record {
            let (later, compared) = placements_compared(
                next,
                service.logical_model,
                explicit_candidate_id,
                record.placements,
                0,
                Seq::empty(),
                false,
            );
            if let Ok(compared) = compared {
                lemma_plan_covered_later(groups, states, ids, at);
                lemma_plan_covers(
                    later,
                    service,
                    service_id,
                    explicit_candidate_id,
                    at + 1,
                    groups,
                    states,
                );
                let group = install_group(
                    compared.0,
                    explicit_candidate_id,
                );
                if let Ok(group) = group {
                    let state = InitialGroupState {
                        placement_group_id: group_id,
                        state: record.group.state,
                    };
                    let more = states.push(state);
                    assert(plan_covered(groups.push(group), more, ids, at + 1)) by {
                        assert(groups_coherent(groups.push(group))) by {
                            assert forall|i: int| 0 <= i < groups.len() + 1 implies bounded_nodes(
                                (#[trigger] groups.push(group)[i]).node_ids,
                            ) && optional_named(groups.push(group)[i].explicit_candidate_id) by {
                                if i < groups.len() {
                                    assert(groups.push(group)[i] == groups[i]);
                                }
                            }
                        }
                        assert(ids.take(at + 1)[at] == group_id);
                        assert forall|i: int| 0 <= i < more.len() implies ids.take(at + 1).contains(
                            (#[trigger] more[i]).placement_group_id,
                        ) by {
                            if i < states.len() {
                                assert(more[i] == states[i]);
                            }
                        }
                        assert forall|i: int, j: int|
                            0 <= i < j < more.len() implies initial_ids(more)[i]
                            != initial_ids(more)[j] by {
                            if j < states.len() {
                                assert(initial_ids(states)[i] != initial_ids(states)[j]);
                            } else {
                                let id = states[i].placement_group_id;
                                assert(ids.take(at).contains(id));
                                let k = choose|k: int| 0 <= k < at && ids.take(at)[k] == id;
                                assert(ids[k] == id);
                            }
                        }
                    }
                    lemma_plan_covers(
                        later,
                        service,
                        service_id,
                        explicit_candidate_id,
                        at + 1,
                        groups.push(group),
                        more,
                    );
                }
            }
        }
    }
}

/// The journal that a new update command commits is readable when it replaces something, the
/// service's groups are bounded and distinct, its derived identities do not collide, and the
/// groups still run on the nodes that they were planned for.
pub proof fn law_update_journal_is_readable(
    planned: NodeModelWorld,
    world: NodeModelWorld,
    request: NodeModelUpdateRequestView,
    plan: UpdatePlanView,
)
    requires
        update_planned(planned, request.service_id, request.explicit_candidate_id).1 == Ok::<
            UpdatePlanView,
            NodeModelError,
        >(plan),
        request.identity.idempotency_key.len() > 0,
        optional_named(request.explicit_candidate_id),
        plan.service.logical_model.len() > 0,
        plan.groups.len() > 0,
        plan.service.placement_group_ids.len() <= MAX_INSTALL_GROUPS,
        plan.service.placement_group_ids.no_duplicates(),
        identities_apart(request.identity.operation_id, plan.states),
        groups_retained(
            world.read_journal(request.identity.operation_id).0,
            request.identity.operation_id,
            plan.states,
            0,
            Seq::empty(),
        ).1 matches Ok(retained) ==> nodes_kept(retained, plan.groups),
        clock_from(world, UnixMilliseconds { value: 1 }),
    ensures
        only(world, update_prepared(world, request, plan).0, readable_writes()),
{
    let operation_id = request.identity.operation_id;
    let (asked, service) = redacted(planned.service(request.service_id));
    let service = service->Ok_0.service;
    let nothing = Seq::<InitialGroupState>::empty();
    lemma_plan_keeps_service(
        asked,
        service,
        request.service_id,
        request.explicit_candidate_id,
        0,
        Seq::empty(),
        nothing,
    );
    assert(plan_covered(Seq::empty(), nothing, service.placement_group_ids, 0));
    lemma_plan_covers(
        asked,
        service,
        request.service_id,
        request.explicit_candidate_id,
        0,
        Seq::empty(),
        nothing,
    );
    let (second, existing) = world.read_journal(operation_id);
    lemma_retained_follow_states(second, operation_id, plan.states, 0, Seq::empty());
    let (third, retained) = groups_retained(second, operation_id, plan.states, 0, Seq::empty());
    join(world, second, third, readable_writes());
    let (fourth, now) = third.now();
    join(world, third, fourth, readable_writes());
    if let (Ok(retained), Ok(now)) = (retained, now) {
        assert((world.script.now)(third.calls.len()) == Ok::<UnixMilliseconds, NodeModelError>(now));
        let journal = NodeModelJournalView {
            install_groups: plan.groups,
            retained_groups: retained,
            planned_group_ids: planned_groups(operation_id, plan.groups.len()),
            initial_group_states: plan.states,
            ..journal_prepared(
                request.identity,
                NodeModelAction::Update,
                plan.service.service_id,
                plan.service.logical_model,
                now,
            )
        };
        lemma_replacement_readable(journal);
        join(world, fourth, fourth.create_journal(journal).0, readable_writes());
    }
}

// ---------------------------------------------------------------------------
// Rollbacks
// ---------------------------------------------------------------------------

proof fn lemma_distinct_keys_sort_strictly(receipts: Seq<NodeModelRuntimeReceiptView>)
    requires
        forall|i: int, j: int|
            #![trigger receipts[i], receipts[j]]
            0 <= i < receipts.len() && 0 <= j < receipts.len() && i != j ==> receipt_key(
                receipts[i],
            ) != receipt_key(receipts[j]),
    ensures
        ({
            let sorted = stable_sort(
                receipts,
                |receipt: NodeModelRuntimeReceiptView| receipt_key(receipt),
            );
            &&& is_strictly_sorted(
                sorted,
                |receipt: NodeModelRuntimeReceiptView| receipt_key(receipt),
            )
            &&& forall|i: int| 0 <= i < sorted.len() ==> receipts.contains(#[trigger] sorted[i])
        }),
{
    broadcast use vstd::seq_lib::group_to_multiset_ensures;

    let key = |receipt: NodeModelRuntimeReceiptView| receipt_key(receipt);
    let sorted = stable_sort(receipts, key);
    lemma_stable_sort(receipts, key);
    assert forall|i: int| 0 <= i < sorted.len() implies receipts.contains(#[trigger] sorted[i]) by {
        assert(sorted.contains(sorted[i]));
        assert(sorted.to_multiset().contains(sorted[i]));
        assert(receipts.to_multiset().contains(sorted[i]));
    }
    assert(receipts.no_duplicates()) by {
        assert forall|i: int, j: int|
            0 <= i < receipts.len() && 0 <= j < receipts.len() && i != j implies receipts[i]
            != receipts[j] by {
            assert(receipt_key(receipts[i]) != receipt_key(receipts[j]));
        }
    }
    receipts.lemma_multiset_has_no_duplicates();
    sorted.lemma_multiset_has_no_duplicates_conv();
    assert forall|i: int, j: int|
        #![trigger sorted[i], sorted[j]]
        0 <= i < j < sorted.len() implies key_lt(key(sorted[i]), key(sorted[j])) by {
        assert(key_le(key(sorted[i]), key(sorted[j])));
        assert(receipts.contains(sorted[i]) && receipts.contains(sorted[j]));
        let a = choose|a: int| 0 <= a < receipts.len() && receipts[a] == sorted[i];
        let b = choose|b: int| 0 <= b < receipts.len() && receipts[b] == sorted[j];
        assert(sorted[i] != sorted[j]);
        assert(a != b);
        assert(receipt_key(receipts[a]) != receipt_key(receipts[b]));
    }
}

proof fn lemma_sorted_nodes(nodes: Seq<NodeId>)
    ensures
        same_members(nodes, sorted_ids(nodes)),
        sorted_ids(nodes).no_duplicates() ==> nodes.no_duplicates(),
{
    broadcast use vstd::seq_lib::group_to_multiset_ensures;

    let sorted = sorted_ids(nodes);
    law_sorted_ids(nodes);
    assert forall|i: int| 0 <= i < nodes.len() implies sorted.contains(#[trigger] nodes[i]) by {
        assert(nodes.contains(nodes[i]));
        assert(nodes.to_multiset().contains(nodes[i]));
        assert(sorted.to_multiset().contains(nodes[i]));
    }
    assert forall|i: int| 0 <= i < sorted.len() implies nodes.contains(#[trigger] sorted[i]) by {
        assert(sorted.contains(sorted[i]));
        assert(sorted.to_multiset().contains(sorted[i]));
        assert(nodes.to_multiset().contains(sorted[i]));
    }
    if sorted.no_duplicates() {
        sorted.lemma_multiset_has_no_duplicates();
        nodes.lemma_multiset_has_no_duplicates_conv();
    }
}

/// What one rollback has recorded of its first pairs: one group with the nodes of each predecessor,
/// one state for each current group, and one receipt for each predecessor's node.
pub open spec fn parts_cover(
    parts: RollbackPartsView,
    pairs: Seq<RollbackPairView>,
    at: int,
) -> bool {
    let receipts = parts.receipts;
    &&& parts.groups.len() == at
    &&& parts.states.len() == at
    &&& forall|i: int|
        0 <= i < at ==> (#[trigger] parts.groups[i]).node_ids == record_nodes(pairs[i].previous)
    &&& forall|i: int|
        0 <= i < at ==> (#[trigger] parts.states[i]).placement_group_id
            == pairs[i].current.group.placement_group_id
    &&& groups_coherent(parts.groups)
    &&& forall|i: int|
        0 <= i < receipts.len() ==> {
            &&& receipt_coherent(#[trigger] receipts[i])
            &&& receipts[i].group_index < at
            &&& parts.groups[receipts[i].group_index as int].node_ids.contains(receipts[i].node_id)
        }
    &&& forall|i: int, j: int|
        #![trigger receipts[i], receipts[j]]
        0 <= i < receipts.len() && 0 <= j < receipts.len() && i != j ==> receipt_key(receipts[i])
            != receipt_key(receipts[j])
}

proof fn lemma_parts_extended(
    parts: RollbackPartsView,
    pairs: Seq<RollbackPairView>,
    at: int,
    group: NodeModelInstallGroupView,
    state: PlacementGroupState,
)
    requires
        0 <= at < pairs.len() <= MAX_INSTALL_GROUPS,
        parts_cover(parts, pairs, at),
        group.node_ids == record_nodes(pairs[at].previous),
        bounded_nodes(group.node_ids),
        optional_named(group.explicit_candidate_id),
        pairs[at].previous.group.runtime.candidate_id.len() > 0,
    ensures
        parts_cover(
            RollbackPartsView {
                groups: parts.groups.push(group),
                receipts: parts.receipts + reused_receipts(pairs[at].previous, at),
                states: parts.states.push(
                    InitialGroupState {
                        placement_group_id: pairs[at].current.group.placement_group_id,
                        state,
                    },
                ),
            },
            pairs,
            at + 1,
        ),
{
    let previous = pairs[at].previous;
    let nodes = assigned_nodes(previous.placements);
    lemma_sorted_nodes(nodes);
    let old_receipts = parts.receipts;
    let added = reused_receipts(previous, at);
    let receipts = old_receipts + added;
    let groups = parts.groups.push(group);
    let states = parts.states.push(
        InitialGroupState {
            placement_group_id: pairs[at].current.group.placement_group_id,
            state,
        },
    );
    assert forall|i: int| 0 <= i < at + 1 implies (#[trigger] groups[i]).node_ids == record_nodes(
        pairs[i].previous,
    ) by {
        if i < at {
            assert(groups[i] == parts.groups[i]);
        }
    }
    assert forall|i: int| 0 <= i < at + 1 implies (#[trigger] states[i]).placement_group_id
        == pairs[i].current.group.placement_group_id by {
        if i < at {
            assert(states[i] == parts.states[i]);
        }
    }
    assert forall|i: int| 0 <= i < added.len() implies (#[trigger] added[i]).group_index == at
        && added[i].node_id == nodes[i] && group.node_ids.contains(added[i].node_id) by {
        assert(sorted_ids(nodes).contains(nodes[i]));
    }
    assert(groups_coherent(groups)) by {
        assert forall|i: int| 0 <= i < groups.len() implies bounded_nodes(
            (#[trigger] groups[i]).node_ids,
        ) && optional_named(groups[i].explicit_candidate_id) by {
            if i < at {
                assert(groups[i] == parts.groups[i]);
            }
        }
    }
    assert forall|i: int| 0 <= i < receipts.len() implies {
        &&& receipt_coherent(#[trigger] receipts[i])
        &&& receipts[i].group_index < at + 1
        &&& groups[receipts[i].group_index as int].node_ids.contains(receipts[i].node_id)
    } by {
        if i < old_receipts.len() {
            assert(receipts[i] == old_receipts[i]);
            assert(groups[receipts[i].group_index as int]
                == parts.groups[receipts[i].group_index as int]);
        } else {
            assert(receipts[i] == added[i - old_receipts.len()]);
        }
    }
    assert forall|i: int, j: int|
        #![trigger receipts[i], receipts[j]]
        0 <= i < receipts.len() && 0 <= j < receipts.len() && i != j implies receipt_key(receipts[i])
        != receipt_key(receipts[j]) by {
        let count = old_receipts.len();
        if i < count && j < count {
            assert(receipts[i] == old_receipts[i] && receipts[j] == old_receipts[j]);
        } else if i < count {
            assert(receipts[i] == old_receipts[i] && receipts[j] == added[j - count]);
        } else if j < count {
            assert(receipts[j] == old_receipts[j] && receipts[i] == added[i - count]);
        } else {
            assert(receipts[i] == added[i - count] && receipts[j] == added[j - count]);
            assert(nodes[i - count] != nodes[j - count]);
            let left = nodes[i - count];
            let right = nodes[j - count];
            if left.value == right.value {
                assert(left.kind == right.kind);
                assert(left == right);
            }
        }
    }
}

/// Every predecessor names its candidate.
pub open spec fn candidates_named(pairs: Seq<RollbackPairView>) -> bool {
    forall|i: int|
        0 <= i < pairs.len() ==> (#[trigger] pairs[i]).previous.group.runtime.candidate_id.len()
            > 0
}

proof fn lemma_pairs_recorded(pairs: Seq<RollbackPairView>, at: int, parts: RollbackPartsView)
    requires
        0 <= at <= pairs.len() <= MAX_INSTALL_GROUPS,
        candidates_named(pairs),
        parts_cover(parts, pairs, at),
    ensures
        pairs_recorded(pairs, at, parts) matches Ok(recorded) ==> parts_cover(
            recorded,
            pairs,
            pairs.len() as int,
        ),
    decreases pairs.len() - at,
{
    if at < pairs.len() {
        let pair = pairs[at];
        let group = install_group(
            record_nodes(pair.previous),
            Some(pair.previous.group.runtime.candidate_id),
        );
        let state = rollback_intent(pair.current.group.state);
        if let (Ok(group), Ok(state)) = (group, state) {
            lemma_parts_extended(parts, pairs, at, group, state);
            lemma_pairs_recorded(
                pairs,
                at + 1,
                RollbackPartsView {
                    groups: parts.groups.push(group),
                    receipts: parts.receipts + reused_receipts(pair.previous, at),
                    states: parts.states.push(
                        InitialGroupState {
                            placement_group_id: pair.current.group.placement_group_id,
                            state,
                        },
                    ),
                },
            );
        }
    }
}

/// Every pair preserves the nodes of its current group.
pub open spec fn pairs_valid(pairs: Seq<RollbackPairView>) -> bool {
    forall|i: int|
        0 <= i < pairs.len() ==> rollback_pair_valid(
            (#[trigger] pairs[i]).current,
            pairs[i].previous,
        )
}

proof fn lemma_predecessor_valid(
    world: NodeModelWorld,
    current: PlacementRecordView,
    history: Seq<VersionedNodeModelJournalView>,
    at: int,
)
    ensures
        predecessor_found(world, current, history, at).1 matches Some(previous)
            ==> rollback_pair_valid(current, previous),
    decreases history.len() - at,
{
    if 0 <= at < history.len() {
        lemma_predecessor_valid(world, current, history, at + 1);
        let source = retained_source(history[at].journal, current.group.placement_group_id);
        if let Some(source) = source {
            let next = world.group_record(source).0;
            lemma_predecessor_valid(next, current, history, at + 1);
        }
    }
}

proof fn lemma_pairs_found(
    world: NodeModelWorld,
    current: Seq<PlacementRecordView>,
    history: Seq<VersionedNodeModelJournalView>,
    at: int,
    pairs: Seq<RollbackPairView>,
)
    requires
        0 <= at <= current.len(),
        pairs.len() == at,
        pairs_valid(pairs),
    ensures
        pairs_found(world, current, history, at, pairs).1 matches Ok(found) ==> found.len()
            == current.len() && pairs_valid(found),
    decreases current.len() - at,
{
    if at < current.len() {
        lemma_predecessor_valid(world, current[at], history, 0);
        let (next, previous) = predecessor_found(world, current[at], history, 0);
        if let Some(previous) = previous {
            let (later, checked) = previous_checked(next, previous);
            let pair = RollbackPairView { current: current[at], previous };
            assert forall|i: int| 0 <= i < at + 1 implies rollback_pair_valid(
                (#[trigger] pairs.push(pair)[i]).current,
                pairs.push(pair)[i].previous,
            ) by {
                if i < at {
                    assert(pairs.push(pair)[i] == pairs[i]);
                }
            }
            lemma_pairs_found(later, current, history, at + 1, pairs.push(pair));
        }
    }
}

proof fn lemma_groups_read_count(
    world: NodeModelWorld,
    groups: Seq<PlacementGroupId>,
    at: int,
    records: Seq<PlacementRecordView>,
)
    requires
        0 <= at <= groups.len(),
        records.len() == at,
    ensures
        groups_read(world, groups, at, records).1 matches Ok(read) ==> read.len() == groups.len(),
    decreases groups.len() - at,
{
    if at < groups.len() {
        let (next, record) = required(from_placement(world.group_record(groups[at])));
        if let Ok(record) = record {
            lemma_groups_read_count(next, groups, at + 1, records.push(record));
        }
    }
}

/// A rollback plan has a pair for some of the service's groups, each with a predecessor on the same
/// nodes.
proof fn lemma_rollback_planned(
    world: NodeModelWorld,
    service_id: ModelServiceId,
    target_id: Option<Seq<char>>,
)
    ensures
        rollback_planned(world, service_id, target_id).1 matches Ok(plan) ==> {
            &&& plan.target_id == target_id
            &&& 0 < plan.pairs.len() <= plan.service.placement_group_ids.len()
            &&& pairs_valid(plan.pairs)
        },
{
    let (second, service) = redacted(world.service(service_id));
    if let Ok(service) = service {
        let groups = service.service.placement_group_ids;
        let (third, records) = groups_read(second, groups, 0, Seq::empty());
        lemma_groups_read_count(second, groups, 0, Seq::empty());
        if let Ok(records) = records {
            let keep = |record: PlacementRecordView| in_target(record, target_id);
            let current = selected(records, keep);
            lemma_selected_members(records, keep);
            let (fourth, journals) = third.all_journals();
            if let Ok(journals) = journals {
                let history = replacement_history(journals, service_id);
                lemma_pairs_found(fourth, current, history, 0, Seq::empty());
            }
        }
    }
}

/// The current groups of one list of pairs.
pub open spec fn current_ids(pairs: Seq<RollbackPairView>) -> Seq<PlacementGroupId> {
    Seq::new(pairs.len(), |i: int| pairs[i].current.group.placement_group_id)
}

/// The current groups that were retained still run on exactly the nodes that the plan saw.
pub open spec fn current_nodes_kept(
    retained: Seq<NodeModelRetainedGroupView>,
    pairs: Seq<RollbackPairView>,
) -> bool {
    forall|i: int|
        0 <= i < retained.len() && i < pairs.len() ==> same_members(
            retained_node_ids((#[trigger] retained[i]).nodes),
            record_nodes(pairs[i].current),
        )
}

/// The journal that a new rollback command commits is readable when the service's groups are bounded,
/// the current groups are distinct, the derived identities do not collide, and the groups still run
/// on the nodes that the plan saw.
pub proof fn law_rollback_journal_is_readable(
    planned: NodeModelWorld,
    world: NodeModelWorld,
    identity: NodeModelCommandIdentityView,
    service_id: ModelServiceId,
    target_id: Option<Seq<char>>,
    plan: RollbackPlanView,
)
    requires
        rollback_planned(planned, service_id, target_id).1 == Ok::<
            RollbackPlanView,
            NodeModelError,
        >(plan),
        identity.idempotency_key.len() > 0,
        optional_named(target_id),
        plan.service.logical_model.len() > 0,
        candidates_named(plan.pairs),
        plan.service.placement_group_ids.len() <= MAX_INSTALL_GROUPS,
        current_ids(plan.pairs).no_duplicates(),
        pairs_recorded(plan.pairs, 0, no_parts()) matches Ok(parts) ==> {
            &&& identities_apart(identity.operation_id, parts.states)
            &&& groups_retained(
                world,
                identity.operation_id,
                parts.states,
                0,
                Seq::empty(),
            ).1 matches Ok(retained) ==> current_nodes_kept(retained, plan.pairs)
        },
        clock_from(world, UnixMilliseconds { value: 1 }),
    ensures
        only(world, rollback_prepared(world, identity, plan).0, readable_writes()),
{
    let operation_id = identity.operation_id;
    let pairs = plan.pairs;
    lemma_rollback_planned(planned, service_id, target_id);
    assert(parts_cover(no_parts(), pairs, 0));
    lemma_pairs_recorded(pairs, 0, no_parts());
    if let Ok(parts) = pairs_recorded(pairs, 0, no_parts()) {
        lemma_retained_follow_states(world, operation_id, parts.states, 0, Seq::empty());
        let (second, retained) = groups_retained(
            world,
            operation_id,
            parts.states,
            0,
            Seq::empty(),
        );
        let (third, now) = second.now();
        join(world, second, third, readable_writes());
        if let (Ok(retained), Ok(now)) = (retained, now) {
            assert((world.script.now)(second.calls.len()) == Ok::<
                UnixMilliseconds,
                NodeModelError,
            >(now));
            let key = |receipt: NodeModelRuntimeReceiptView| receipt_key(receipt);
            let receipts = stable_sort(parts.receipts, key);
            lemma_distinct_keys_sort_strictly(parts.receipts);
            let journal = NodeModelJournalView {
                install_groups: parts.groups,
                rollback_target_id: plan.target_id,
                retained_groups: retained,
                runtime_receipts: receipts,
                planned_group_ids: planned_groups(operation_id, parts.groups.len()),
                initial_group_states: parts.states,
                ..journal_prepared(
                    identity,
                    NodeModelAction::Rollback,
                    plan.service.service_id,
                    plan.service.logical_model,
                    now,
                )
            };
            assert(initial_ids(parts.states) =~= current_ids(pairs)) by {
                assert forall|i: int| 0 <= i < pairs.len() implies initial_ids(parts.states)[i]
                    == current_ids(pairs)[i] by {
                    assert(parts.states[i].placement_group_id
                        == pairs[i].current.group.placement_group_id);
                }
            }
            assert(nodes_kept(retained, parts.groups)) by {
                assert forall|i: int|
                    0 <= i < retained.len() && i < parts.groups.len() implies same_members(
                    retained_node_ids((#[trigger] retained[i]).nodes),
                    parts.groups[i].node_ids,
                ) by {
                    assert(parts.groups[i].node_ids == record_nodes(pairs[i].previous));
                    assert(rollback_pair_valid(pairs[i].current, pairs[i].previous));
                }
            }
            assert forall|i: int| 0 <= i < receipts.len() implies receipt_owned(
                journal,
                #[trigger] receipts[i],
            ) && receipt_coherent(receipts[i]) by {
                assert(parts.receipts.contains(receipts[i]));
                let k = choose|k: int|
                    0 <= k < parts.receipts.len() && parts.receipts[k] == receipts[i];
                assert(parts.receipts[k].group_index < pairs.len());
            }
            lemma_replacement_readable(journal);
            join(world, third, third.create_journal(journal).0, readable_writes());
        }
    }
}

// ---------------------------------------------------------------------------
// Successors
// ---------------------------------------------------------------------------

/// Recording one receipt for a node of the command keeps its journal readable, unless the clock went
/// back behind the command.
pub proof fn law_receipt_keeps_journal_readable(
    world: NodeModelWorld,
    journal: VersionedNodeModelJournalView,
    receipt: NodeModelRuntimeReceiptView,
)
    requires
        readable(journal.journal),
        receipt_owned(journal.journal, receipt),
        receipt_coherent(receipt),
        clock_from(world, journal.journal.created_at),
    ensures
        only(world, receipt_saved(world, journal, receipt).0, readable_writes()),
{
    broadcast use vstd::seq_lib::group_to_multiset_ensures;

    let (second, now) = world.now();
    if let Ok(now) = now {
        assert((world.script.now)(world.calls.len()) == Ok::<UnixMilliseconds, NodeModelError>(now));
        let before = journal.journal;
        let receipts = receipts_with(before.runtime_receipts, receipt);
        let after = NodeModelJournalView {
            runtime_receipts: receipts,
            updated_at: now,
            ..before
        };
        law_receipts_stay_sorted(before.runtime_receipts, receipt);
        let keep = |existing: NodeModelRuntimeReceiptView|
            existing.group_index != receipt.group_index || existing.node_id != receipt.node_id;
        let key = |receipt: NodeModelRuntimeReceiptView| receipt_key(receipt);
        let others = other_receipts(before.runtime_receipts, receipt);
        let unsorted = others.push(receipt);
        lemma_selected_members(before.runtime_receipts, keep);
        lemma_stable_sort(unsorted, key);
        assert forall|i: int| 0 <= i < receipts.len() implies receipt_owned(
            after,
            #[trigger] receipts[i],
        ) && receipt_coherent(receipts[i]) by {
            assert(receipts.contains(receipts[i]));
            assert(receipts.to_multiset().contains(receipts[i]));
            assert(unsorted.to_multiset().contains(receipts[i]));
            assert(unsorted.contains(receipts[i]));
            let k = choose|k: int| 0 <= k < unsorted.len() && unsorted[k] == receipts[i];
            if k < others.len() {
                assert(before.runtime_receipts.contains(others[k]));
                let m = choose|m: int|
                    0 <= m < before.runtime_receipts.len() && before.runtime_receipts[m]
                        == others[k];
                assert(receipt_owned(before, before.runtime_receipts[m]));
                assert(receipt_coherent(before.runtime_receipts[m]));
            }
        }
        lemma_retained_unchanged(before, after);
        assert(journal_valid(after));
        join(
            world,
            second,
            second.replace_journal(after, journal.revision).0,
            readable_writes(),
        );
    }
}

proof fn lemma_retained_unchanged(before: NodeModelJournalView, after: NodeModelJournalView)
    requires
        journal_valid(before),
        after.operation_id == before.operation_id,
        after.install_groups == before.install_groups,
        after.retained_groups == before.retained_groups,
        after.initial_group_states == before.initial_group_states,
    ensures
        forall|i: int|
            0 <= i < after.retained_groups.len() ==> #[trigger] retained_consistent(after, i),
        forall|receipt: NodeModelRuntimeReceiptView| #[trigger]
            receipt_owned(after, receipt) == receipt_owned(before, receipt),
{
    assert forall|i: int| 0 <= i < after.retained_groups.len() implies #[trigger]
    retained_consistent(after, i) by {
        assert(retained_consistent(before, i));
    }
}

/// Committing the next planned group keeps the journal readable, unless the clock went back behind
/// the command.
pub proof fn law_committed_group_keeps_journal_readable(
    world: NodeModelWorld,
    journal: VersionedNodeModelJournalView,
    group_index: usize,
    planned: PlacementGroupId,
    request: PlacementRequestView,
)
    requires
        readable(journal.journal),
        journal.journal.action.stages(),
        group_index < journal.journal.planned_group_ids.len(),
        planned == journal.journal.planned_group_ids[group_index as int],
        clock_from(world, journal.journal.created_at),
    ensures
        only(
            world,
            group_staged(world, journal, group_index, planned, request).0,
            readable_writes(),
        ),
{
    let before = journal.journal;
    let committed = before.placement_group_ids;
    if group_index >= committed.len() {
        let (second, staged) = staged_or_reread(world, planned, request);
        assert(only(world, second, readable_writes()));
        let (third, now) = second.now();
        join(world, second, third, readable_writes());
        if committed.len() == group_index && now is Ok {
            let now = now->Ok_0;
            assert((world.script.now)(second.calls.len()) == Ok::<
                UnixMilliseconds,
                NodeModelError,
            >(now));
            let more = committed.push(planned);
            let after = NodeModelJournalView {
                placement_group_ids: more,
                updated_at: now,
                ..before
            };
            assert(more =~= before.planned_group_ids.take(more.len() as int));
            lemma_retained_unchanged(before, after);
            assert(journal_valid(after));
            join(
                world,
                third,
                third.replace_journal(after, journal.revision).0,
                readable_writes(),
            );
        }
    }
}

/// Moving a journal to another state keeps it readable where a failure is named exactly in the states
/// that record one, unless the clock went back behind the command.
pub proof fn law_advance_keeps_journal_readable(
    world: NodeModelWorld,
    journal: VersionedNodeModelJournalView,
    state: NodeModelJournalState,
    failure_code: Option<Seq<char>>,
)
    requires
        readable(journal.journal),
        failure_recorded(state) == (failure_code is Some),
        optional_named(failure_code),
        clock_from(world, journal.journal.created_at),
    ensures
        only(world, journal_advanced(world, journal, state, failure_code).0, readable_writes()),
{
    let (second, now) = world.now();
    if let Ok(now) = now {
        assert((world.script.now)(world.calls.len()) == Ok::<UnixMilliseconds, NodeModelError>(now));
        let before = journal.journal;
        let after = NodeModelJournalView { state, failure_code, updated_at: now, ..before };
        lemma_retained_unchanged(before, after);
        assert(journal_valid(after));
        join(
            world,
            second,
            second.replace_journal(after, journal.revision).0,
            readable_writes(),
        );
    }
}

} // verus!
