//! What a removal has taken away, and which runtimes a command may take away at all, as the calls
//! and their replies show it.

use vstd::prelude::*;

use crate::entity::{
    ModelServiceDesiredState, PlacementGroupState, PlacementRecordView, RuntimeInstallationState,
};
use crate::identity::{sorted_ids, ModelServiceId, PlacementGroupId, RuntimeInstallationId};
use crate::node_model_contract::{
    NodeModelAction, NodeModelJournalView, NodeModelRemovalRetention, NodeModelRuntimeDisposition,
    NodeModelRuntimeReceiptView, VersionedNodeModelJournalView,
};
use crate::node_model_execution::{
    all_retired, all_withdrawn, created_by, created_for, existing_executed, group_withdrawn,
    owned_retired,
};
use crate::node_model_groups::{
    from_placement, from_runtime, group_released, group_stopped, redacted, required,
    runtime_retired, service_in_state,
};
use crate::node_model_laws::{created_in, join, only, removes_runtime};
use crate::node_model_outcomes::{lemma_intending_from, lemma_sorted_members, moves_to};
use crate::node_model_replacement_outcomes::{lemma_gone_from, lemma_unbound_from, releases_of};
use crate::node_model_rules::group_phase;
use crate::node_model_traces::{
    admits_reads, any_call, carry_gone, carry_unbound, detaches, ends_gone, ends_intending,
    ends_unbound, gone_at, lemma_widened, moves, stages, step_intending, step_stopped,
    step_unbound, Calls,
};
use crate::node_model_world::{NodeModelCall, NodeModelWorld};
use crate::sequence::{distinct, lemma_distinct};

verus! {

// ---------------------------------------------------------------------------
// Runtimes
// ---------------------------------------------------------------------------

/// Some group that is not removed binds the installation.
pub open spec fn bound_in(
    records: Seq<PlacementRecordView>,
    installation_id: RuntimeInstallationId,
) -> bool {
    exists|r: int, p: int|
        0 <= r < records.len() && 0 <= p < records[r].placements.len() && records[r].group.state
            != PlacementGroupState::Removed && (
        #[trigger] records[r].placements[p]).runtime_installation_id == installation_id
}

/// One call settles what becomes of an installation: some group still binds it, it is unknown or
/// removed already, or it is removed now.
pub open spec fn runtime_settled_at(
    world: NodeModelWorld,
    at: int,
    installation_id: RuntimeInstallationId,
) -> bool {
    ||| world.calls[at] is GroupRecords && ((world.script.group_records)(at as nat) matches Ok(
        records,
    ) && bound_in(records, installation_id))
    ||| world.calls[at] == (NodeModelCall::Installation { installation_id }) && ((
    world.script.installation)(at as nat) matches Ok(found) && (found matches Some(installation)
        ==> installation.state == RuntimeInstallationState::Removed))
    ||| world.calls[at] == (NodeModelCall::RemoveRuntime { installation_id }) && ((
    world.script.remove_runtime)(at as nat) matches Ok(removed) && removed.state
        == RuntimeInstallationState::Removed)
    ||| world.calls[at] == (NodeModelCall::RemoveRuntimePreservingModels { installation_id }) && ((
    world.script.remove_runtime_preserving_models)(at as nat) matches Ok(removed) && removed.state
        == RuntimeInstallationState::Removed)
}

/// From one position on it is settled what becomes of an installation.
pub open spec fn runtime_settled(
    world: NodeModelWorld,
    from: nat,
    installation_id: RuntimeInstallationId,
) -> bool {
    exists|at: int|
        from <= at < world.calls.len() && #[trigger] runtime_settled_at(world, at, installation_id)
}

/// A call that removes an installation comes two calls after one that lists every group, and none
/// of them binds it.
pub open spec fn removes_unbound(world: NodeModelWorld, from: nat) -> bool {
    forall|at: int, installation_id: RuntimeInstallationId|
        from <= at < world.calls.len() && #[trigger] removes_runtime(
            world.calls[at],
            installation_id,
        ) ==> unbound_before(world, from, at, installation_id)
}

/// Two calls before one position every group was listed, and none binds the installation.
pub open spec fn unbound_before(
    world: NodeModelWorld,
    from: nat,
    at: int,
    installation_id: RuntimeInstallationId,
) -> bool {
    &&& from <= at - 2
    &&& world.calls[at - 2] is GroupRecords
    &&& (world.script.group_records)((at - 2) as nat) matches Ok(records)
    &&& !bound_in(records, installation_id)
}

/// The call that removes an installation under one retention.
pub open spec fn removal_call(
    installation_id: RuntimeInstallationId,
    retention: NodeModelRemovalRetention,
) -> NodeModelCall {
    match retention {
        NodeModelRemovalRetention::RemoveUnreferencedRuntimes => NodeModelCall::RemoveRuntime {
            installation_id,
        },
        NodeModelRemovalRetention::PreserveModels => NodeModelCall::RemoveRuntimePreservingModels {
            installation_id,
        },
    }
}

/// The calls that remove runtimes of a list under one retention, beside those that change nothing.
pub open spec fn retires_of(
    installations: Seq<RuntimeInstallationId>,
    retention: NodeModelRemovalRetention,
) -> Calls {
    |call: NodeModelCall|
        !call.mutates() || match call {
            NodeModelCall::RemoveRuntime { installation_id } => installations.contains(
                installation_id,
            ) && retention == NodeModelRemovalRetention::RemoveUnreferencedRuntimes,
            NodeModelCall::RemoveRuntimePreservingModels { installation_id } => {
                installations.contains(installation_id) && retention
                    == NodeModelRemovalRetention::PreserveModels
            },
            _ => false,
        }
}

pub(crate) proof fn carry_settled(
    earlier: NodeModelWorld,
    later: NodeModelWorld,
    late: nat,
    early: nat,
    installation_id: RuntimeInstallationId,
)
    requires
        runtime_settled(earlier, late, installation_id),
        only(earlier, later, any_call()),
        early <= late,
    ensures
        runtime_settled(later, early, installation_id),
{
    let at = choose|at: int|
        late <= at < earlier.calls.len() && #[trigger] runtime_settled_at(
            earlier,
            at,
            installation_id,
        );
    assert(later.calls[at] == earlier.calls[at]);
    assert(runtime_settled_at(later, at, installation_id));
}

proof fn join_unbound(
    first: NodeModelWorld,
    second: NodeModelWorld,
    third: NodeModelWorld,
)
    requires
        only(first, second, any_call()),
        only(second, third, any_call()),
        removes_unbound(second, first.calls.len()),
        removes_unbound(third, second.calls.len()),
    ensures
        removes_unbound(third, first.calls.len()),
{
    let from = first.calls.len();
    assert forall|at: int, installation_id: RuntimeInstallationId|
        from <= at < third.calls.len() && #[trigger] removes_runtime(
            third.calls[at],
            installation_id,
        ) implies unbound_before(third, from, at, installation_id) by {
        if at < second.calls.len() {
            assert(third.calls[at] == second.calls[at]);
            assert(removes_runtime(second.calls[at], installation_id));
            assert(unbound_before(second, from, at, installation_id));
            assert(third.calls[at - 2] == second.calls[at - 2]);
        } else {
            assert(unbound_before(third, second.calls.len(), at, installation_id));
        }
    }
}

proof fn lemma_bound(records: Seq<PlacementRecordView>, installation_id: RuntimeInstallationId)
    ensures
        crate::node_model_groups::any_group_binds(records, installation_id) == bound_in(
            records,
            installation_id,
        ),
{
    if crate::node_model_groups::any_group_binds(records, installation_id) {
        let r = choose|r: int|
            0 <= r < records.len() && crate::node_model_groups::group_binds(
                #[trigger] records[r],
                installation_id,
            );
        let p = choose|p: int|
            0 <= p < records[r].placements.len() && (
            #[trigger] records[r].placements[p]).runtime_installation_id == installation_id;
        assert(records[r].placements[p].runtime_installation_id == installation_id);
    }
    if bound_in(records, installation_id) {
        let (r, p) = choose|r: int, p: int|
            0 <= r < records.len() && 0 <= p < records[r].placements.len() && records[r].group.state
                != PlacementGroupState::Removed && (
            #[trigger] records[r].placements[p]).runtime_installation_id == installation_id;
        assert(crate::node_model_groups::group_binds(records[r], installation_id));
    }
}

pub(crate) proof fn one_retired(
    world: NodeModelWorld,
    installation_id: RuntimeInstallationId,
    retention: NodeModelRemovalRetention,
    allowed: Calls,
)
    requires
        admits_reads(allowed),
        allowed(removal_call(installation_id, retention)),
    ensures
        ({
            let (after, result) = runtime_retired(world, installation_id, retention);
            &&& only(world, after, allowed)
            &&& removes_unbound(after, world.calls.len())
            &&& result is Ok ==> runtime_settled(after, world.calls.len(), installation_id)
        }),
{
    let (after, result) = runtime_retired(world, installation_id, retention);
    let from = world.calls.len() as int;
    let a = from_placement(world.group_records());
    if let Ok(records) = a.1 {
        lemma_bound(records, installation_id);
        let b = from_runtime(a.0.installation(installation_id));
        if after.calls.len() > from + 2 {
            assert(after.calls[from + 2] == removal_call(installation_id, retention));
            assert(after.calls[from] is GroupRecords);
            assert(unbound_before(after, world.calls.len(), from + 2, installation_id));
        }
        assert(removes_unbound(after, world.calls.len()));
        if result is Ok {
            if after.calls.len() == from + 1 {
                assert(runtime_settled_at(after, from, installation_id));
            } else if after.calls.len() == from + 2 {
                assert(runtime_settled_at(after, from + 1, installation_id));
            } else {
                assert(runtime_settled_at(after, from + 2, installation_id));
            }
        }
    }
}

proof fn every_retired(
    world: NodeModelWorld,
    installations: Seq<RuntimeInstallationId>,
    retention: NodeModelRemovalRetention,
    at: int,
)
    requires
        0 <= at <= installations.len(),
    ensures
        ({
            let (after, result) = all_retired(world, installations, retention, at);
            &&& only(world, after, retires_of(installations, retention))
            &&& removes_unbound(after, world.calls.len())
            &&& result is Ok ==> forall|k: int|
                at <= k < installations.len() ==> runtime_settled(
                    after,
                    world.calls.len(),
                    #[trigger] installations[k],
                )
        }),
    decreases installations.len() - at,
{
    let allowed = retires_of(installations, retention);
    let from = world.calls.len();
    if at < installations.len() {
        assert(installations.contains(installations[at]));
        one_retired(world, installations[at], retention, allowed);
        let (next, result) = runtime_retired(world, installations[at], retention);
        if result is Ok {
            every_retired(next, installations, retention, at + 1);
            let (after, all) = all_retired(next, installations, retention, at + 1);
            join(world, next, after, allowed);
            lemma_widened(world, next, allowed, any_call());
            lemma_widened(next, after, allowed, any_call());
            join_unbound(world, next, after);
            if all is Ok {
                carry_settled(next, after, from, from, installations[at]);
                assert(only(after, after, any_call()));
                assert forall|k: int| at <= k < installations.len() implies runtime_settled(
                    after,
                    from,
                    #[trigger] installations[k],
                ) by {
                    if k > at {
                        carry_settled(after, after, next.calls.len(), from, installations[k]);
                    }
                }
            }
        }
    }
}

proof fn lemma_created_by(receipts: Seq<NodeModelRuntimeReceiptView>)
    ensures
        forall|id: RuntimeInstallationId| #[trigger]
            created_by(receipts).contains(id) <==> created_in(receipts, id),
    decreases receipts.len(),
{
    if receipts.len() > 0 {
        let shorter = receipts.drop_last();
        lemma_created_by(shorter);
        assert forall|id: RuntimeInstallationId| #[trigger]
            created_by(receipts).contains(id) <==> created_in(receipts, id) by {
            let inner = created_by(shorter);
            let whole = created_by(receipts);
            let last = receipts[receipts.len() - 1];
            if whole.contains(id) {
                let k = choose|k: int| 0 <= k < whole.len() && whole[k] == id;
                if k < inner.len() {
                    assert(inner[k] == id);
                    assert(inner.contains(id));
                    let i = choose|i: int|
                        0 <= i < shorter.len() && (#[trigger] shorter[i]).disposition
                            == NodeModelRuntimeDisposition::Created && shorter[i].installation_id
                            == Some(id);
                    assert(receipts[i] == shorter[i]);
                } else {
                    assert(last.installation_id == Some(id));
                }
            }
            if created_in(receipts, id) {
                let i = choose|i: int|
                    0 <= i < receipts.len() && (#[trigger] receipts[i]).disposition
                        == NodeModelRuntimeDisposition::Created && receipts[i].installation_id
                        == Some(id);
                if i < shorter.len() {
                    assert(shorter[i] == receipts[i]);
                    assert(created_in(shorter, id));
                    assert(inner.contains(id));
                    let k = choose|k: int| 0 <= k < inner.len() && inner[k] == id;
                    assert(whole[k] == id);
                } else {
                    assert(whole[whole.len() - 1] == id);
                }
            }
        }
    }
}

/// Some install or update of the service created the installation.
pub open spec fn created_for_service(
    journals: Seq<VersionedNodeModelJournalView>,
    service: ModelServiceId,
    installation_id: RuntimeInstallationId,
) -> bool {
    exists|j: int|
        {
            &&& 0 <= j < journals.len()
            &&& (#[trigger] journals[j]).journal.service_id == service
            &&& journals[j].journal.action == NodeModelAction::Install || journals[j].journal.action
                == NodeModelAction::Update
            &&& created_in(journals[j].journal.runtime_receipts, installation_id)
        }
}

proof fn lemma_created_for(
    journals: Seq<VersionedNodeModelJournalView>,
    service: ModelServiceId,
)
    ensures
        forall|id: RuntimeInstallationId| #[trigger]
            created_for(journals, service).contains(id) <==> created_for_service(
                journals,
                service,
                id,
            ),
    decreases journals.len(),
{
    if journals.len() > 0 {
        let shorter = journals.drop_last();
        let last = journals[journals.len() - 1].journal;
        lemma_created_for(shorter, service);
        lemma_created_by(last.runtime_receipts);
        let earlier = created_for(shorter, service);
        let whole = created_for(journals, service);
        let own = created_by(last.runtime_receipts);
        assert forall|id: RuntimeInstallationId| #[trigger]
            whole.contains(id) <==> created_for_service(journals, service, id) by {
            if whole.contains(id) {
                let k = choose|k: int| 0 <= k < whole.len() && whole[k] == id;
                if k < earlier.len() {
                    assert(earlier[k] == id);
                    assert(earlier.contains(id));
                    let j = choose|j: int|
                        {
                            &&& 0 <= j < shorter.len()
                            &&& (#[trigger] shorter[j]).journal.service_id == service
                            &&& shorter[j].journal.action == NodeModelAction::Install
                                || shorter[j].journal.action == NodeModelAction::Update
                            &&& created_in(shorter[j].journal.runtime_receipts, id)
                        };
                    assert(journals[j] == shorter[j]);
                } else {
                    assert(own[k - earlier.len()] == id);
                    assert(own.contains(id));
                    let j = journals.len() - 1;
                    assert(journals[j].journal.service_id == service);
                    assert(created_in(journals[j].journal.runtime_receipts, id));
                }
            }
            if created_for_service(journals, service, id) {
                let j = choose|j: int|
                    {
                        &&& 0 <= j < journals.len()
                        &&& (#[trigger] journals[j]).journal.service_id == service
                        &&& journals[j].journal.action == NodeModelAction::Install
                            || journals[j].journal.action == NodeModelAction::Update
                        &&& created_in(journals[j].journal.runtime_receipts, id)
                    };
                if j < shorter.len() {
                    assert(shorter[j] == journals[j]);
                    assert(created_for_service(shorter, service, id));
                    assert(earlier.contains(id));
                    let k = choose|k: int| 0 <= k < earlier.len() && earlier[k] == id;
                    assert(whole[k] == id);
                } else {
                    assert(own.contains(id));
                    let k = choose|k: int| 0 <= k < own.len() && own[k] == id;
                    assert(whole[earlier.len() + k] == id);
                }
            }
        }
    }
}

/// Retiring the runtimes of a service settles every installation that an install or update of the
/// service created, and removes no other; each that is removed is bound by no group, and is removed
/// as the retention asks.
pub proof fn law_owned_runtimes_are_retired(
    world: NodeModelWorld,
    service: ModelServiceId,
    retention: NodeModelRemovalRetention,
)
    ensures
        ({
            let (after, result) = owned_retired(world, service, retention);
            let from = world.calls.len();
            &&& removes_unbound(after, from)
            &&& match (world.script.all_journals)(from) {
                Err(_) => only(world, after, |call: NodeModelCall| !call.mutates()),
                Ok(journals) => {
                    &&& only(
                        world,
                        after,
                        |call: NodeModelCall|
                            !call.mutates() || match call {
                                NodeModelCall::RemoveRuntime { installation_id } => {
                                    created_for_service(journals, service, installation_id)
                                        && retention
                                        == NodeModelRemovalRetention::RemoveUnreferencedRuntimes
                                },
                                NodeModelCall::RemoveRuntimePreservingModels {
                                    installation_id,
                                } => created_for_service(journals, service, installation_id)
                                    && retention == NodeModelRemovalRetention::PreserveModels,
                                _ => false,
                            },
                    )
                    &&& result is Ok ==> forall|id: RuntimeInstallationId|
                        created_for_service(journals, service, id) ==> #[trigger] runtime_settled(
                            after,
                            from,
                            id,
                        )
                },
            }
        }),
{
    let (after, result) = owned_retired(world, service, retention);
    let from = world.calls.len();
    let a = world.all_journals();
    if let Ok(journals) = a.1 {
        let created = created_for(journals, service);
        let ids = distinct(created);
        lemma_created_for(journals, service);
        lemma_distinct(created);
        every_retired(a.0, ids, retention, 0);
        let wide = |call: NodeModelCall|
            !call.mutates() || match call {
                NodeModelCall::RemoveRuntime { installation_id } => {
                    created_for_service(journals, service, installation_id) && retention
                        == NodeModelRemovalRetention::RemoveUnreferencedRuntimes
                },
                NodeModelCall::RemoveRuntimePreservingModels { installation_id } => {
                    created_for_service(journals, service, installation_id) && retention
                        == NodeModelRemovalRetention::PreserveModels
                },
                _ => false,
            };
        lemma_widened(a.0, after, retires_of(ids, retention), wide);
        join(world, a.0, after, wide);
        lemma_widened(a.0, after, wide, any_call());
        assert(removes_unbound(a.0, from));
        join_unbound(world, a.0, after);
        if result is Ok {
            assert(only(after, after, any_call()));
            assert forall|id: RuntimeInstallationId|
                created_for_service(journals, service, id) implies #[trigger] runtime_settled(
                after,
                from,
                id,
            ) by {
                assert(created.contains(id));
                assert(ids.contains(id));
                let k = choose|k: int| 0 <= k < ids.len() && ids[k] == id;
                assert(runtime_settled(after, a.0.calls.len(), ids[k]));
                carry_settled(after, after, a.0.calls.len(), from, id);
            }
        }
    }
}

// ---------------------------------------------------------------------------
// Removal
// ---------------------------------------------------------------------------

proof fn one_withdrawn(
    world: NodeModelWorld,
    journal: NodeModelJournalView,
    group: PlacementGroupId,
    allowed: Calls,
)
    requires
        admits_reads(allowed),
        allowed(NodeModelCall::StopGroup { placement_group_id: group }),
        allowed(NodeModelCall::RemoveGroup { placement_group_id: group }),
        forall|call: NodeModelCall|
            detaches(call, journal.service_id, group) ==> #[trigger] allowed(call),
        forall|call: NodeModelCall| #[trigger] allowed(call) ==> !stages(call, group),
    ensures
        ({
            let (after, result) = group_withdrawn(world, journal, group);
            &&& only(world, after, allowed)
            &&& result is Ok ==> ends_gone(after, world.calls.len(), group) && ends_unbound(
                after,
                world.calls.len(),
                journal.service_id,
                group,
            )
        }),
{
    let (after, result) = group_withdrawn(world, journal, group);
    let from = world.calls.len();
    let name = group_phase("group."@, group, ".detach"@);
    let a = required(from_placement(world.group_record(group)));
    if let Ok(record) = a.1 {
        lemma_released(a.0, group, record.group.state, allowed);
        let b = group_released(a.0, group, record.group.state);
        join(world, a.0, b.0, allowed);
        if b.1 is Ok {
            step_unbound(b.0, journal, group, name, false, allowed);
            join(world, b.0, after, allowed);
            if record.group.state == PlacementGroupState::Removed {
                assert(gone_at(a.0, from as int, group));
                assert(ends_gone(a.0, from, group));
            } else {
                lemma_gone_from(b.0, a.0.calls.len(), from, group);
            }
            if result is Ok {
                carry_gone(b.0, after, from, group, allowed);
                lemma_unbound_from(after, b.0.calls.len(), from, journal.service_id, group);
            }
        }
    }
}

pub(crate) proof fn lemma_released(
    world: NodeModelWorld,
    group: PlacementGroupId,
    state: PlacementGroupState,
    allowed: Calls,
)
    requires
        admits_reads(allowed),
        allowed(NodeModelCall::StopGroup { placement_group_id: group }),
        allowed(NodeModelCall::RemoveGroup { placement_group_id: group }),
    ensures
        ({
            let (after, result) = group_released(world, group, state);
            &&& only(world, after, allowed)
            &&& result is Ok && state != PlacementGroupState::Removed ==> ends_gone(
                after,
                world.calls.len(),
                group,
            )
        }),
{
    let (after, result) = group_released(world, group, state);
    step_stopped(world, group, allowed);
    let b = group_stopped(world, group);
    let c = b.0.remove_group(group);
    join(world, b.0, c.0, allowed);
    if result is Ok && state != PlacementGroupState::Removed {
        let at = after.calls.len() as int - 1;
        assert(gone_at(after, at, group));
    }
}

proof fn every_withdrawn(
    world: NodeModelWorld,
    journal: NodeModelJournalView,
    groups: Seq<PlacementGroupId>,
    at: int,
)
    requires
        0 <= at <= groups.len(),
    ensures
        ({
            let (after, result) = all_withdrawn(world, journal, groups, at);
            &&& only(world, after, releases_of(groups))
            &&& result is Ok ==> forall|k: int|
                at <= k < groups.len() ==> ends_gone(
                    after,
                    world.calls.len(),
                    #[trigger] groups[k],
                ) && ends_unbound(after, world.calls.len(), journal.service_id, groups[k])
        }),
    decreases groups.len() - at,
{
    let allowed = releases_of(groups);
    let from = world.calls.len();
    if at < groups.len() {
        assert(groups.contains(groups[at]));
        one_withdrawn(world, journal, groups[at], allowed);
        let (next, result) = group_withdrawn(world, journal, groups[at]);
        if result is Ok {
            every_withdrawn(next, journal, groups, at + 1);
            let (after, all) = all_withdrawn(next, journal, groups, at + 1);
            join(world, next, after, allowed);
            if all is Ok {
                carry_gone(next, after, from, groups[at], allowed);
                carry_unbound(next, after, from, journal.service_id, groups[at], allowed);
                assert forall|k: int| at <= k < groups.len() implies ends_gone(
                    after,
                    from,
                    #[trigger] groups[k],
                ) && ends_unbound(after, from, journal.service_id, groups[k]) by {
                    if k > at {
                        lemma_gone_from(after, next.calls.len(), from, groups[k]);
                        lemma_unbound_from(
                            after,
                            next.calls.len(),
                            from,
                            journal.service_id,
                            groups[k],
                        );
                    }
                }
            }
        }
    }
}

/// The calls of one removal: its groups are released, the service is moved to removed, and
/// runtimes are removed as the retention asks.
pub open spec fn removing(journal: NodeModelJournalView) -> Calls {
    |call: NodeModelCall|
        {
            ||| releases_of(journal.placement_group_ids)(call)
            ||| moves(call, journal.service_id, ModelServiceDesiredState::Removed)
            ||| call is RemoveRuntime && journal.removal_runtime_retention
                == NodeModelRemovalRetention::RemoveUnreferencedRuntimes
            ||| call is RemoveRuntimePreservingModels && journal.removal_runtime_retention
                == NodeModelRemovalRetention::PreserveModels
        }
}

/// One call reads the service, and finds that it holds no group, or that it still holds some.
pub open spec fn reads_emptiness(
    world: NodeModelWorld,
    at: int,
    service: ModelServiceId,
    empty: bool,
) -> bool {
    &&& world.calls[at] == (NodeModelCall::Service { service_id: service })
    &&& (world.script.service)(at as nat) matches Ok(read)
    &&& (read.service.placement_group_ids.len() == 0) == empty
}

/// A removal that succeeded falls in two parts. Before the split every group of its journal is gone
/// and given up by the service, and no service is moved. At the split the service is read. Where it
/// holds no group it ends removed; else it is moved nowhere. No other group is stopped, removed or
/// detached, and no removed runtime is bound by any group.
pub proof fn law_removal_withdraws_exactly_its_groups(
    world: NodeModelWorld,
    journal: NodeModelJournalView,
)
    requires
        journal.action == NodeModelAction::Remove,
    ensures
        ({
            let (after, result) = existing_executed(world, journal);
            let groups = journal.placement_group_ids;
            let from = world.calls.len();
            &&& only(world, after, removing(journal))
            &&& removes_unbound(after, from)
            &&& result is Ok ==> {
                &&& forall|k: int|
                    0 <= k < groups.len() ==> ends_gone(after, from, #[trigger] groups[k])
                        && ends_unbound(after, from, journal.service_id, groups[k])
                &&& exists|split: int| #[trigger] removal_split(after, from, split, journal)
            }
        }),
{
    let (after, result) = existing_executed(world, journal);
    let groups = journal.placement_group_ids;
    let sorted = sorted_ids(groups);
    let service = journal.service_id;
    let from = world.calls.len();
    let wide = removing(journal);
    let state = ModelServiceDesiredState::Removed;
    let retention = journal.removal_runtime_retention;
    lemma_sorted_members(groups);
    every_withdrawn(world, journal, sorted, 0);
    let a = all_withdrawn(world, journal, sorted, 0);
    lemma_widened(world, a.0, releases_of(sorted), releases_of(groups));
    lemma_widened(world, a.0, releases_of(groups), wide);
    lemma_widened(world, a.0, wide, any_call());
    assert(removes_unbound(a.0, from));
    if a.1 is Ok {
        let b = redacted(a.0.service(service));
        join(world, a.0, b.0, wide);
        join(world, a.0, b.0, any_call());
        assert(removes_unbound(b.0, from));
        if let Ok(read) = b.1 {
            let empty = read.service.placement_group_ids.len() == 0;
            let name = "service.transition"@;
            let c = if empty {
                service_in_state(b.0, journal, name, state)
            } else {
                (b.0, Ok(()))
            };
            step_intending(b.0, journal, name, state, moves_to(service, state));
            assert(only(b.0, c.0, moves_to(service, state)));
            lemma_widened(b.0, c.0, moves_to(service, state), wide);
            join(world, b.0, c.0, wide);
            lemma_widened(world, c.0, wide, any_call());
            lemma_widened(b.0, c.0, wide, any_call());
            assert(removes_unbound(c.0, from)) by {
                assert forall|at: int, installation_id: RuntimeInstallationId|
                    from <= at < c.0.calls.len() && #[trigger] removes_runtime(
                        c.0.calls[at],
                        installation_id,
                    ) implies unbound_before(c.0, from, at, installation_id) by {
                    if at < b.0.calls.len() {
                        assert(c.0.calls[at] == b.0.calls[at]);
                        assert(removes_runtime(b.0.calls[at], installation_id));
                        if at < a.0.calls.len() {
                            assert(releases_of(groups)(a.0.calls[at]));
                        }
                    } else {
                        assert(moves_to(service, state)(c.0.calls[at]));
                    }
                }
            }
            if c.1 is Ok {
                let retired = |call: NodeModelCall|
                    !call.mutates() || (call is RemoveRuntime && retention
                        == NodeModelRemovalRetention::RemoveUnreferencedRuntimes) || (
                    call is RemoveRuntimePreservingModels && retention
                        == NodeModelRemovalRetention::PreserveModels);
                let d = owned_retired(c.0, service, retention);
                law_owned_runtimes_are_retired(c.0, service, retention);
                lemma_owned_only(c.0, service, retention);
                assert(only(c.0, d.0, retired));
                lemma_widened(c.0, d.0, retired, wide);
                join(world, c.0, d.0, wide);
                lemma_widened(c.0, d.0, retired, any_call());
                join_unbound(world, c.0, d.0);
                if result is Ok {
                    let split = a.0.calls.len() as int;
                    join(b.0, c.0, d.0, any_call());
                    assert(after.calls[split] == b.0.calls[split]);
                    assert forall|k: int| 0 <= k < groups.len() implies ends_gone(
                        after,
                        from,
                        #[trigger] groups[k],
                    ) && ends_unbound(after, from, service, groups[k]) by {
                        assert(sorted.contains(groups[k]));
                        let m = choose|m: int| 0 <= m < sorted.len() && sorted[m] == groups[k];
                        assert(ends_gone(a.0, from, sorted[m]));
                        let later = |call: NodeModelCall|
                            retired(call) || moves_to(service, state)(call);
                        lemma_widened(b.0, c.0, moves_to(service, state), later);
                        lemma_widened(c.0, d.0, retired, later);
                        assert(only(a.0, b.0, later));
                        join(a.0, b.0, c.0, later);
                        join(a.0, c.0, d.0, later);
                        carry_gone(a.0, after, from, groups[k], later);
                        carry_unbound(a.0, after, from, service, groups[k], later);
                    }
                    assert forall|i: int| from <= i < split implies !(
                    #[trigger] after.calls[i] is TransitionService) by {
                        assert(after.calls[i] == a.0.calls[i]);
                        assert(releases_of(groups)(a.0.calls[i]));
                    }
                    if empty {
                        lemma_intending_from(
                            c.0,
                            b.0.calls.len(),
                            split as nat,
                            service,
                            state,
                        );
                        crate::node_model_traces::carry_intending(
                            c.0,
                            after,
                            split as nat,
                            service,
                            state,
                            retired,
                        );
                    } else {
                        assert forall|i: int| split <= i < after.calls.len() implies !(
                        #[trigger] after.calls[i] is TransitionService) by {
                            if i >= c.0.calls.len() {
                                assert(retired(after.calls[i]));
                            }
                        }
                    }
                    assert(reads_emptiness(after, split, service, empty));
                    assert(removal_split(after, from, split, journal));
                }
            }
        }
    }
}

proof fn lemma_owned_only(
    world: NodeModelWorld,
    service: ModelServiceId,
    retention: NodeModelRemovalRetention,
)
    ensures
        only(
            world,
            owned_retired(world, service, retention).0,
            |call: NodeModelCall|
                !call.mutates() || (call is RemoveRuntime && retention
                    == NodeModelRemovalRetention::RemoveUnreferencedRuntimes) || (
                call is RemoveRuntimePreservingModels && retention
                    == NodeModelRemovalRetention::PreserveModels),
        ),
{
    let retired = |call: NodeModelCall|
        !call.mutates() || (call is RemoveRuntime && retention
            == NodeModelRemovalRetention::RemoveUnreferencedRuntimes) || (
        call is RemoveRuntimePreservingModels && retention
            == NodeModelRemovalRetention::PreserveModels);
    let after = owned_retired(world, service, retention).0;
    let a = world.all_journals();
    if let Ok(journals) = a.1 {
        let ids = distinct(created_for(journals, service));
        every_retired(a.0, ids, retention, 0);
        lemma_widened(a.0, after, retires_of(ids, retention), retired);
        join(world, a.0, after, retired);
    }
}

/// The two parts of one removal: no service is moved before the split, where the service is read.
/// Where it holds no group it ends removed, and else no service is moved at all.
pub open spec fn removal_split(
    world: NodeModelWorld,
    from: nat,
    split: int,
    journal: NodeModelJournalView,
) -> bool {
    let service = journal.service_id;
    &&& from <= split < world.calls.len()
    &&& forall|i: int| from <= i < split ==> !(#[trigger] world.calls[i] is TransitionService)
    &&& {
        ||| reads_emptiness(world, split, service, true) && ends_intending(
            world,
            split as nat,
            service,
            ModelServiceDesiredState::Removed,
        )
        ||| reads_emptiness(world, split, service, false) && forall|i: int|
            split <= i < world.calls.len() ==> !(#[trigger] world.calls[i] is TransitionService)
    }
}

} // verus!
