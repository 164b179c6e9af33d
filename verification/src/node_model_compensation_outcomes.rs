//! What the reversal of a failed command has brought back, as its calls and their replies show it.

use vstd::prelude::*;

use crate::entity::{
    ModelServiceDesiredState, PlacementGroupState, PlacementRecordView, RuntimeInstallationState,
};
use crate::identity::{ModelServiceId, PlacementGroupId, RuntimeInstallationId};
use crate::node_model_compensation::{
    all_retained_restored, any_initial_running, any_retained_running, assignment_retained,
    compensated, empty_service_removed, group_detached_if_readable, group_resettled, group_undone,
    initial_resettled, initial_restored, intent, replacement_compensated, replacements_removed,
    retained_assigned, retained_kept, retained_nodes_read, retained_rebuilt, retained_restored,
    staged_undone,
};
use crate::node_model_contract::{
    InitialGroupState, NodeModelAction, NodeModelError, NodeModelJournalView,
    NodeModelRemovalRetention, NodeModelRetainedGroupView, NodeModelRetainedNode,
    NodeModelRuntimeDisposition, NodeModelRuntimeReceiptView,
};
use crate::node_model_groups::{
    created_installation, created_retired, from_placement, from_runtime, group_attached,
    group_detached, group_recovered, group_stopped, required, runtime_retired, service_in_state,
};
use crate::node_model_laws::{created_in, join, only, removes_runtime};
use crate::node_model_outcomes::{
    lemma_at_rest_from, lemma_intending_from, lemma_running_from, moves_to,
};
use crate::node_model_placement_outcomes::lemma_bound_from;
use crate::node_model_plan_outcomes::reads_record;
use crate::node_model_removal_outcomes::{
    carry_settled, lemma_released, one_retired, removes_unbound, runtime_settled, unbound_before,
};
use crate::node_model_replacement_outcomes::{lemma_unbound_from, releases_of, replaced_groups};
use crate::node_model_rules::group_phase;
use crate::node_model_traces::{
    admits_reads, any_call, attaches, carry_at_rest, carry_bound, carry_intending, carry_running,
    carry_unbound, detaches, ends_at_rest, ends_bound, ends_intending, ends_running, ends_unbound,
    gone_at, intends_at, lacks_at, lemma_widened, moves, stages, step_bound, step_intending,
    step_recovered, step_running, step_stopped, step_unbound, Calls,
};
use crate::node_model_world::{NodeModelCall, NodeModelWorld};

verus! {

// ---------------------------------------------------------------------------
// Groups that a reversal clears away
// ---------------------------------------------------------------------------

/// A call changes a group.
pub open spec fn touches(call: NodeModelCall, group: PlacementGroupId) -> bool {
    match call {
        NodeModelCall::StageGroup { request } => request.placement_group_id == group,
        NodeModelCall::StartGroup { placement_group_id } => placement_group_id == group,
        NodeModelCall::StopGroup { placement_group_id } => placement_group_id == group,
        NodeModelCall::RecoverGroup { placement_group_id, .. } => placement_group_id == group,
        NodeModelCall::RemoveGroup { placement_group_id } => placement_group_id == group,
        NodeModelCall::AttachGroup { placement_group_id, .. } => placement_group_id == group,
        NodeModelCall::DetachGroup { placement_group_id, .. } => placement_group_id == group,
        _ => false,
    }
}

/// No call of the set changes the group.
pub open spec fn spares(allowed: Calls, group: PlacementGroupId) -> bool {
    forall|call: NodeModelCall| #[trigger] allowed(call) ==> !touches(call, group)
}

/// One call shows that a group is not there: it is read missing or removed, or is removed.
pub open spec fn cleared_at(world: NodeModelWorld, at: int, group: PlacementGroupId) -> bool {
    ||| gone_at(world, at, group)
    ||| world.calls[at] == (NodeModelCall::GroupRecord { placement_group_id: group }) && (
    world.script.group_record)(at as nat) == Ok::<
        Option<PlacementRecordView>,
        crate::entity::PlacementError,
    >(None)
}

/// From one position on a group is shown not to be there, and nothing stages it afterwards.
pub open spec fn ends_cleared(world: NodeModelWorld, from: nat, group: PlacementGroupId) -> bool {
    exists|at: int|
        from <= at < world.calls.len() && #[trigger] cleared_at(world, at, group) && forall|
            later: int,
        |
            at < later < world.calls.len() ==> !stages(#[trigger] world.calls[later], group)
}

proof fn carry_cleared(
    earlier: NodeModelWorld,
    later: NodeModelWorld,
    late: nat,
    early: nat,
    group: PlacementGroupId,
    allowed: Calls,
)
    requires
        ends_cleared(earlier, late, group),
        only(earlier, later, allowed),
        forall|call: NodeModelCall| #[trigger] allowed(call) ==> !stages(call, group),
        early <= late,
    ensures
        ends_cleared(later, early, group),
{
    let at = choose|at: int|
        late <= at < earlier.calls.len() && #[trigger] cleared_at(earlier, at, group) && forall|
            next: int,
        |
            at < next < earlier.calls.len() ==> !stages(#[trigger] earlier.calls[next], group);
    assert(later.calls[at] == earlier.calls[at]);
    assert(cleared_at(later, at, group));
    assert forall|next: int| at < next < later.calls.len() implies !stages(
        #[trigger] later.calls[next],
        group,
    ) by {
        if next < earlier.calls.len() {
            assert(later.calls[next] == earlier.calls[next]);
        } else {
            assert(allowed(later.calls[next]));
        }
    }
}

proof fn group_is_undone(world: NodeModelWorld, group: PlacementGroupId, allowed: Calls)
    requires
        admits_reads(allowed),
        allowed(NodeModelCall::StopGroup { placement_group_id: group }),
        allowed(NodeModelCall::RemoveGroup { placement_group_id: group }),
    ensures
        only(world, group_undone(world, group).0, allowed),
        group_undone(world, group).1 is Ok ==> ends_cleared(
            group_undone(world, group).0,
            world.calls.len(),
            group,
        ),
{
    let (after, result) = group_undone(world, group);
    let first = world.calls.len() as int;
    let a = from_placement(world.group_record(group));
    if let Ok(Some(record)) = a.1 {
        lemma_released(a.0, group, record.group.state, allowed);
        join(world, a.0, after, allowed);
        if result is Ok && record.group.state != PlacementGroupState::Removed {
            let at = choose|at: int|
                a.0.calls.len() <= at < after.calls.len() && #[trigger] gone_at(after, at, group)
                    && forall|next: int|
                    at < next < after.calls.len() ==> !stages(#[trigger] after.calls[next], group);
            assert(cleared_at(after, at, group));
        }
    }
    if result is Ok && after.calls.len() == first + 1 {
        assert(cleared_at(after, first, group));
    }
}

/// A service could not be read.
pub open spec fn unreadable(world: NodeModelWorld, from: nat, service: ModelServiceId) -> bool {
    exists|at: int|
        from <= at < world.calls.len() && #[trigger] world.calls[at] == (NodeModelCall::Service {
            service_id: service,
        }) && (world.script.service)(at as nat) is Err
}

proof fn carry_unreadable(
    earlier: NodeModelWorld,
    later: NodeModelWorld,
    late: nat,
    early: nat,
    service: ModelServiceId,
)
    requires
        unreadable(earlier, late, service),
        only(earlier, later, any_call()),
        early <= late,
    ensures
        unreadable(later, early, service),
{
    let at = choose|at: int|
        late <= at < earlier.calls.len() && #[trigger] earlier.calls[at] == (
        NodeModelCall::Service { service_id: service }) && (earlier.script.service)(
            at as nat,
        ) is Err;
    assert(later.calls[at] == earlier.calls[at]);
}

/// One committed group is gone: it is not there, and its service lacks it as far as the service can
/// be read at all.
pub open spec fn withdrawn(
    world: NodeModelWorld,
    from: nat,
    service: ModelServiceId,
    group: PlacementGroupId,
    may_be_unreadable: bool,
) -> bool {
    &&& ends_cleared(world, from, group)
    &&& ends_unbound(world, from, service, group) || may_be_unreadable && unreadable(
        world,
        from,
        service,
    )
}

proof fn carry_withdrawn(
    earlier: NodeModelWorld,
    later: NodeModelWorld,
    late: nat,
    early: nat,
    service: ModelServiceId,
    group: PlacementGroupId,
    may_be_unreadable: bool,
    allowed: Calls,
)
    requires
        withdrawn(earlier, late, service, group, may_be_unreadable),
        only(earlier, later, allowed),
        forall|call: NodeModelCall| #[trigger]
            allowed(call) ==> !stages(call, group) && !attaches(call, service, group),
        early <= late,
    ensures
        withdrawn(later, early, service, group, may_be_unreadable),
{
    carry_cleared(earlier, later, late, early, group, allowed);
    lemma_widened(earlier, later, allowed, any_call());
    if ends_unbound(earlier, late, service, group) {
        carry_unbound(earlier, later, late, service, group, allowed);
        lemma_unbound_from(later, late, early, service, group);
    } else {
        carry_unreadable(earlier, later, late, early, service);
    }
}

proof fn every_staged_undone(world: NodeModelWorld, journal: NodeModelJournalView, left: int)
    requires
        0 <= left <= journal.placement_group_ids.len(),
    ensures
        ({
            let (after, result) = staged_undone(world, journal, left);
            let groups = journal.placement_group_ids;
            &&& only(world, after, releases_of(groups))
            &&& result is Ok ==> forall|k: int|
                0 <= k < left ==> withdrawn(
                    after,
                    world.calls.len(),
                    journal.service_id,
                    #[trigger] groups[k],
                    true,
                )
        }),
    decreases left,
{
    let groups = journal.placement_group_ids;
    let service = journal.service_id;
    let allowed = releases_of(groups);
    let (after, result) = staged_undone(world, journal, left);
    if left > 0 {
        let group = groups[left - 1];
        assert(groups.contains(group));
        group_is_undone(world, group, allowed);
        let a = group_undone(world, group);
        if a.1 is Ok {
            let b = group_detached_if_readable(a.0, journal, group);
            let first = a.0.calls.len() as int;
            assert(only(a.0, b.0, allowed));
            join(world, a.0, b.0, allowed);
            if b.1 is Ok {
                assert(b.0.calls[first] == (NodeModelCall::Service { service_id: service }));
                if (b.0.script.service)(first as nat) is Err {
                    assert(unreadable(b.0, world.calls.len(), service));
                } else if b.0.calls.len() == first + 1 {
                    assert(lacks_at(b.0, first, service, group));
                } else {
                    assert(lacks_at(b.0, b.0.calls.len() as int - 1, service, group));
                }
                carry_cleared(a.0, b.0, world.calls.len(), world.calls.len(), group, allowed);
                assert(withdrawn(b.0, world.calls.len(), service, group, true));
                every_staged_undone(b.0, journal, left - 1);
                join(world, b.0, after, allowed);
                if result is Ok {
                    carry_withdrawn(
                        b.0,
                        after,
                        world.calls.len(),
                        world.calls.len(),
                        service,
                        group,
                        true,
                        allowed,
                    );
                    assert forall|k: int| 0 <= k < left implies withdrawn(
                        after,
                        world.calls.len(),
                        service,
                        #[trigger] groups[k],
                        true,
                    ) by {
                        if k < left - 1 {
                            carry_withdrawn(
                                after,
                                after,
                                b.0.calls.len(),
                                world.calls.len(),
                                service,
                                groups[k],
                                true,
                                allowed,
                            );
                        }
                    }
                }
            }
        }
    }
}

proof fn every_replacement_removed(
    world: NodeModelWorld,
    journal: NodeModelJournalView,
    left: int,
)
    requires
        0 <= left <= journal.placement_group_ids.len(),
    ensures
        ({
            let (after, result) = replacements_removed(world, journal, left);
            let groups = journal.placement_group_ids;
            &&& only(world, after, releases_of(groups))
            &&& result is Ok ==> forall|k: int|
                0 <= k < left ==> withdrawn(
                    after,
                    world.calls.len(),
                    journal.service_id,
                    #[trigger] groups[k],
                    false,
                )
        }),
    decreases left,
{
    let groups = journal.placement_group_ids;
    let service = journal.service_id;
    let allowed = releases_of(groups);
    let (after, result) = replacements_removed(world, journal, left);
    if left > 0 {
        let group = groups[left - 1];
        assert(groups.contains(group));
        group_is_undone(world, group, allowed);
        let a = group_undone(world, group);
        if a.1 is Ok {
            let name = group_phase("replacement."@, group, ".detach"@);
            step_unbound(a.0, journal, group, name, false, allowed);
            let b = group_detached(a.0, journal, group, name, false);
            join(world, a.0, b.0, allowed);
            if b.1 is Ok {
                carry_cleared(a.0, b.0, world.calls.len(), world.calls.len(), group, allowed);
                lemma_unbound_from(b.0, a.0.calls.len(), world.calls.len(), service, group);
                every_replacement_removed(b.0, journal, left - 1);
                join(world, b.0, after, allowed);
                if result is Ok {
                    carry_withdrawn(
                        b.0,
                        after,
                        world.calls.len(),
                        world.calls.len(),
                        service,
                        group,
                        false,
                        allowed,
                    );
                    assert forall|k: int| 0 <= k < left implies withdrawn(
                        after,
                        world.calls.len(),
                        service,
                        #[trigger] groups[k],
                        false,
                    ) by {
                        if k < left - 1 {
                            carry_withdrawn(
                                after,
                                after,
                                b.0.calls.len(),
                                world.calls.len(),
                                service,
                                groups[k],
                                false,
                                allowed,
                            );
                        }
                    }
                }
            }
        }
    }
}

// ---------------------------------------------------------------------------
// Runtimes that the command created
// ---------------------------------------------------------------------------

/// The calls that remove a runtime which the receipts say was created, beside those that change
/// nothing.
pub open spec fn retires_created(receipts: Seq<NodeModelRuntimeReceiptView>) -> Calls {
    |call: NodeModelCall|
        match call {
            NodeModelCall::RemoveRuntime { installation_id } => created_in(
                receipts,
                installation_id,
            ),
            _ => !call.mutates(),
        }
}

proof fn lemma_unbound_joined(
    earlier: NodeModelWorld,
    later: NodeModelWorld,
    from: nat,
)
    requires
        removes_unbound(earlier, from),
        only(earlier, later, any_call()),
        removes_unbound(later, earlier.calls.len()),
        from <= earlier.calls.len(),
    ensures
        removes_unbound(later, from),
{
    assert forall|at: int, installation_id: RuntimeInstallationId|
        from <= at < later.calls.len() && #[trigger] removes_runtime(
            later.calls[at],
            installation_id,
        ) implies unbound_before(later, from, at, installation_id) by {
        if at < earlier.calls.len() {
            assert(later.calls[at] == earlier.calls[at]);
            assert(removes_runtime(earlier.calls[at], installation_id));
            assert(unbound_before(earlier, from, at, installation_id));
            assert(later.calls[at - 2] == earlier.calls[at - 2]);
        } else {
            assert(unbound_before(later, earlier.calls.len(), at, installation_id));
        }
    }
}

proof fn every_created_retired(
    world: NodeModelWorld,
    receipts: Seq<NodeModelRuntimeReceiptView>,
    left: int,
)
    requires
        0 <= left <= receipts.len(),
    ensures
        ({
            let (after, result) = created_retired(world, receipts, left);
            &&& only(world, after, retires_created(receipts))
            &&& removes_unbound(after, world.calls.len())
            &&& result is Ok ==> forall|id: RuntimeInstallationId| #[trigger]
                created_in(receipts.take(left), id) ==> runtime_settled(
                    after,
                    world.calls.len(),
                    id,
                )
        }),
    decreases left,
{
    let allowed = retires_created(receipts);
    let (after, result) = created_retired(world, receipts, left);
    if left > 0 {
        let receipt = receipts[left - 1];
        let shorter = receipts.take(left - 1);
        match created_installation(receipt) {
            None => {
                every_created_retired(world, receipts, left - 1);
            },
            Some(installation_id) => {
                let retention = NodeModelRemovalRetention::RemoveUnreferencedRuntimes;
                assert(created_in(receipts, installation_id));
                one_retired(world, installation_id, retention, allowed);
                let a = runtime_retired(world, installation_id, retention);
                lemma_widened(world, a.0, allowed, any_call());
                if a.1 is Ok {
                    every_created_retired(a.0, receipts, left - 1);
                    join(world, a.0, after, allowed);
                    lemma_widened(a.0, after, allowed, any_call());
                    lemma_unbound_joined(a.0, after, world.calls.len());
                    if result is Ok {
                        carry_settled(
                            a.0,
                            after,
                            world.calls.len(),
                            world.calls.len(),
                            installation_id,
                        );
                    }
                }
            },
        }
        if result is Ok {
            assert forall|id: RuntimeInstallationId| #[trigger]
                created_in(receipts.take(left), id) implies runtime_settled(
                after,
                world.calls.len(),
                id,
            ) by {
                lemma_created_split(receipts, left, id);
                if created_in(shorter, id) {
                    if let Some(installation_id) = created_installation(receipt) {
                        let a = runtime_retired(
                            world,
                            installation_id,
                            NodeModelRemovalRetention::RemoveUnreferencedRuntimes,
                        );
                        carry_settled(after, after, a.0.calls.len(), world.calls.len(), id);
                    }
                }
            }
        }
    }
}

proof fn lemma_created_split(
    receipts: Seq<NodeModelRuntimeReceiptView>,
    left: int,
    id: RuntimeInstallationId,
)
    requires
        0 < left <= receipts.len(),
        created_in(receipts.take(left), id),
    ensures
        created_in(receipts.take(left - 1), id) || created_installation(receipts[left - 1])
            == Some(id),
{
    let i = choose|i: int|
        0 <= i < receipts.take(left).len() && (#[trigger] receipts.take(left)[i]).disposition
            == NodeModelRuntimeDisposition::Created && receipts.take(left)[i].installation_id
            == Some(id);
    if i < left - 1 {
        assert(receipts.take(left - 1)[i] == receipts.take(left)[i]);
    }
}

// ---------------------------------------------------------------------------
// Groups that a reversal brings back
// ---------------------------------------------------------------------------

/// The identities under which replaced groups may come back.
pub open spec fn restorations(journal: NodeModelJournalView) -> Seq<PlacementGroupId> {
    Seq::new(
        journal.retained_groups.len(),
        |i: int| journal.retained_groups[i].restoration_group_id,
    )
}

/// The calls that bring one retained group back, beside those that change nothing.
pub open spec fn rebuilds_one(
    service: ModelServiceId,
    retained: NodeModelRetainedGroupView,
) -> Calls {
    |call: NodeModelCall|
        match call {
            NodeModelCall::StageGroup { request } => request.placement_group_id
                == retained.restoration_group_id,
            NodeModelCall::StartGroup { placement_group_id } => {
                ||| placement_group_id == retained.source_group_id
                ||| placement_group_id == retained.restoration_group_id
            },
            NodeModelCall::StopGroup { placement_group_id } => {
                ||| placement_group_id == retained.source_group_id
                ||| placement_group_id == retained.restoration_group_id
            },
            NodeModelCall::AttachGroup { service_id, placement_group_id, .. } => {
                &&& service_id == service
                &&& placement_group_id == retained.source_group_id || placement_group_id
                    == retained.restoration_group_id
            },
            NodeModelCall::DetachGroup { service_id, placement_group_id, .. } => {
                &&& service_id == service
                &&& placement_group_id == retained.source_group_id
            },
            _ => !call.mutates(),
        }
}

/// The calls that bring some retained group of a journal back, beside those that change nothing.
pub open spec fn rebuilds_of(journal: NodeModelJournalView) -> Calls {
    |call: NodeModelCall|
        !call.mutates() || exists|k: int|
            0 <= k < journal.retained_groups.len() && #[trigger] rebuilds_one(
                journal.service_id,
                journal.retained_groups[k],
            )(call)
}

/// One call reads a retained installation: it is available, on its node.
pub open spec fn available_at(
    world: NodeModelWorld,
    at: int,
    node: NodeModelRetainedNode,
) -> bool {
    &&& world.calls[at] == (NodeModelCall::Installation { installation_id: node.installation_id })
    &&& (world.script.installation)(at as nat) matches Ok(Some(installation))
    &&& installation.node_id == node.node_id
    &&& installation.state == RuntimeInstallationState::Available
}

/// From one position on a retained installation is read, available on its node.
pub open spec fn found_available(
    world: NodeModelWorld,
    from: nat,
    node: NodeModelRetainedNode,
) -> bool {
    exists|at: int| from <= at < world.calls.len() && #[trigger] available_at(world, at, node)
}

/// A group assigns one retained installation to its node.
pub open spec fn assigns(record: PlacementRecordView, node: NodeModelRetainedNode) -> bool {
    exists|p: int|
        0 <= p < record.placements.len() && (#[trigger] record.placements[p]).node_id
            == node.node_id && record.placements[p].runtime_installation_id == node.installation_id
}

/// A group assigns the retained installations to their nodes, and no other.
pub open spec fn keeps_assignments(
    record: PlacementRecordView,
    retained: NodeModelRetainedGroupView,
) -> bool {
    &&& forall|n: int|
        0 <= n < retained.nodes.len() ==> assigns(record, #[trigger] retained.nodes[n])
    &&& forall|p: int|
        0 <= p < record.placements.len() ==> retained.nodes.contains(
            NodeModelRetainedNode {
                node_id: (#[trigger] record.placements[p]).node_id,
                installation_id: record.placements[p].runtime_installation_id,
            },
        )
}

/// One call reads the source of a retained group: it comes back as itself while it is there, with
/// the assignments that it had, and under the restoration identity when it was removed.
pub open spec fn chosen_at(
    world: NodeModelWorld,
    at: int,
    retained: NodeModelRetainedGroupView,
    record: PlacementRecordView,
    group: PlacementGroupId,
) -> bool {
    &&& reads_record(world, at, retained.source_group_id, record)
    &&& if record.group.state == PlacementGroupState::Removed {
        group == retained.restoration_group_id
    } else {
        group == retained.source_group_id && keeps_assignments(record, retained)
    }
}

/// A group ends in the state that it had.
pub open spec fn ends_in(
    world: NodeModelWorld,
    from: nat,
    group: PlacementGroupId,
    state: PlacementGroupState,
) -> bool {
    match state {
        PlacementGroupState::Running => ends_running(world, from, group),
        PlacementGroupState::Staged => ends_at_rest(world, from, group),
        PlacementGroupState::Stopped => ends_at_rest(world, from, group),
        _ => false,
    }
}

/// One group stands for a retained one again: its service holds it, it is in the state that the
/// retained one had, and every retained installation is available; where it is another group, the
/// retained one is unbound.
pub open spec fn stands_again(
    world: NodeModelWorld,
    from: nat,
    service: ModelServiceId,
    retained: NodeModelRetainedGroupView,
    group: PlacementGroupId,
) -> bool {
    &&& ends_bound(world, from, service, group)
    &&& ends_in(world, from, group, retained.initial_state)
    &&& group != retained.source_group_id ==> ends_unbound(
        world,
        from,
        service,
        retained.source_group_id,
    )
    &&& exists|at: int, record: PlacementRecordView|
        from <= at < world.calls.len() && #[trigger] chosen_at(world, at, retained, record, group)
    &&& forall|n: int|
        0 <= n < retained.nodes.len() ==> found_available(
            world,
            from,
            #[trigger] retained.nodes[n],
        )
}

/// A retained group is back.
pub open spec fn is_back(
    world: NodeModelWorld,
    from: nat,
    service: ModelServiceId,
    retained: NodeModelRetainedGroupView,
) -> bool {
    exists|group: PlacementGroupId| #[trigger] stands_again(world, from, service, retained, group)
}

proof fn carry_available(
    earlier: NodeModelWorld,
    later: NodeModelWorld,
    late: nat,
    early: nat,
    node: NodeModelRetainedNode,
)
    requires
        found_available(earlier, late, node),
        only(earlier, later, any_call()),
        early <= late,
    ensures
        found_available(later, early, node),
{
    let at = choose|at: int|
        late <= at < earlier.calls.len() && #[trigger] available_at(earlier, at, node);
    assert(later.calls[at] == earlier.calls[at]);
    assert(available_at(later, at, node));
}

proof fn carry_state(
    earlier: NodeModelWorld,
    later: NodeModelWorld,
    late: nat,
    early: nat,
    group: PlacementGroupId,
    state: PlacementGroupState,
    allowed: Calls,
)
    requires
        ends_in(earlier, late, group, state),
        only(earlier, later, allowed),
        spares(allowed, group),
        early <= late,
    ensures
        ends_in(later, early, group, state),
{
    assert(touches(NodeModelCall::StopGroup { placement_group_id: group }, group));
    assert(touches(NodeModelCall::RemoveGroup { placement_group_id: group }, group));
    if state == PlacementGroupState::Running {
        carry_running(earlier, later, late, group, allowed);
        lemma_running_from(later, late, early, group);
    } else {
        carry_at_rest(earlier, later, late, group, allowed);
        lemma_at_rest_from(later, late, early, group);
    }
}

proof fn carry_back(
    earlier: NodeModelWorld,
    later: NodeModelWorld,
    late: nat,
    early: nat,
    service: ModelServiceId,
    retained: NodeModelRetainedGroupView,
    allowed: Calls,
)
    requires
        is_back(earlier, late, service, retained),
        only(earlier, later, allowed),
        spares(allowed, retained.source_group_id),
        spares(allowed, retained.restoration_group_id),
        early <= late,
    ensures
        is_back(later, early, service, retained),
{
    let group = choose|group: PlacementGroupId| #[trigger]
        stands_again(earlier, late, service, retained, group);
    let source = retained.source_group_id;
    lemma_widened(earlier, later, allowed, any_call());
    let (at, record) = choose|at: int, record: PlacementRecordView|
        late <= at < earlier.calls.len() && #[trigger] chosen_at(
            earlier,
            at,
            retained,
            record,
            group,
        );
    assert(later.calls[at] == earlier.calls[at]);
    assert(chosen_at(later, at, retained, record, group));
    carry_bound(earlier, later, late, service, group, allowed);
    lemma_bound_from(later, late, early, service, group);
    carry_state(earlier, later, late, early, group, retained.initial_state, allowed);
    if group != source {
        carry_unbound(earlier, later, late, service, source, allowed);
        lemma_unbound_from(later, late, early, service, source);
    }
    assert forall|n: int| 0 <= n < retained.nodes.len() implies found_available(
        later,
        early,
        #[trigger] retained.nodes[n],
    ) by {
        carry_available(earlier, later, late, early, retained.nodes[n]);
    }
    assert(stands_again(later, early, service, retained, group));
}

proof fn retained_nodes_are_read(
    world: NodeModelWorld,
    nodes: Seq<NodeModelRetainedNode>,
    at: int,
    installations: Seq<crate::entity::RuntimeInstallationView>,
)
    requires
        0 <= at <= nodes.len(),
    ensures
        ({
            let (after, read) = retained_nodes_read(world, nodes, at, installations);
            &&& only(world, after, |call: NodeModelCall| !call.mutates())
            &&& read is Ok ==> forall|n: int|
                at <= n < nodes.len() ==> found_available(
                    after,
                    world.calls.len(),
                    #[trigger] nodes[n],
                )
        }),
    decreases nodes.len() - at,
{
    let quiet = |call: NodeModelCall| !call.mutates();
    let (after, read) = retained_nodes_read(world, nodes, at, installations);
    if at < nodes.len() {
        let a = required(from_runtime(world.installation(nodes[at].installation_id)));
        let first = world.calls.len() as int;
        if let Ok(installation) = a.1 {
            if installation.node_id == nodes[at].node_id && installation.state
                == RuntimeInstallationState::Available {
                retained_nodes_are_read(a.0, nodes, at + 1, installations.push(installation));
                join(world, a.0, after, quiet);
                if read is Ok {
                    assert(after.calls[first] == a.0.calls[first]);
                    assert(available_at(after, first, nodes[at]));
                    assert(only(after, after, any_call()));
                    assert forall|n: int| at <= n < nodes.len() implies found_available(
                        after,
                        world.calls.len(),
                        #[trigger] nodes[n],
                    ) by {
                        if n > at {
                            carry_available(
                                after,
                                after,
                                a.0.calls.len(),
                                world.calls.len(),
                                nodes[n],
                            );
                        }
                    }
                }
            }
        }
    }
}

proof fn lemma_kept(retained: NodeModelRetainedGroupView, record: PlacementRecordView)
    requires
        retained_kept(retained, record),
    ensures
        keeps_assignments(record, retained),
{
    assert forall|n: int| 0 <= n < retained.nodes.len() implies assigns(
        record,
        #[trigger] retained.nodes[n],
    ) by {
        assert(retained_assigned(record.placements, retained.nodes[n]));
    }
    assert forall|p: int| 0 <= p < record.placements.len() implies retained.nodes.contains(
        NodeModelRetainedNode {
            node_id: (#[trigger] record.placements[p]).node_id,
            installation_id: record.placements[p].runtime_installation_id,
        },
    ) by {
        assert(assignment_retained(retained.nodes, record.placements[p]));
        let n = choose|n: int|
            0 <= n < retained.nodes.len() && (#[trigger] retained.nodes[n]).node_id
                == record.placements[p].node_id && retained.nodes[n].installation_id
                == record.placements[p].runtime_installation_id;
        assert(retained.nodes[n] == NodeModelRetainedNode {
            node_id: record.placements[p].node_id,
            installation_id: record.placements[p].runtime_installation_id,
        });
    }
}

proof fn retained_is_rebuilt(
    world: NodeModelWorld,
    journal: NodeModelJournalView,
    k: int,
)
    requires
        0 <= k < journal.retained_groups.len(),
    ensures
        ({
            let (after, rebuilt) = retained_rebuilt(world, journal, k);
            let retained = journal.retained_groups[k];
            let from = world.calls.len();
            &&& only(
                world,
                after,
                |call: NodeModelCall| !call.mutates() || stages(call, retained.restoration_group_id),
            )
            &&& rebuilt matches Ok(group) ==> {
                &&& exists|at: int, record: PlacementRecordView|
                    from <= at < after.calls.len() && #[trigger] chosen_at(
                        after,
                        at,
                        retained,
                        record,
                        group,
                    )
                &&& forall|n: int|
                    0 <= n < retained.nodes.len() ==> found_available(
                        after,
                        from,
                        #[trigger] retained.nodes[n],
                    )
            }
        }),
{
    let (after, rebuilt) = retained_rebuilt(world, journal, k);
    let retained = journal.retained_groups[k];
    let from = world.calls.len();
    let quiet = |call: NodeModelCall| !call.mutates();
    let allowed = |call: NodeModelCall|
        !call.mutates() || stages(call, retained.restoration_group_id);
    let a = required(from_placement(world.group_record(retained.source_group_id)));
    if let Ok(record) = a.1 {
        retained_nodes_are_read(a.0, retained.nodes, 0, Seq::empty());
        let b = retained_nodes_read(a.0, retained.nodes, 0, Seq::empty());
        lemma_widened(a.0, b.0, quiet, allowed);
        join(world, a.0, b.0, allowed);
        if after.calls.len() > b.0.calls.len() {
            assert(only(b.0, after, allowed));
            join(world, b.0, after, allowed);
        }
        if let Ok(group) = rebuilt {
            if record.group.state != PlacementGroupState::Removed {
                lemma_kept(retained, record);
            }
            assert(only(b.0, after, allowed));
            join(a.0, b.0, after, allowed);
            lemma_widened(b.0, after, allowed, any_call());
            assert(after.calls[from as int] == a.0.calls[from as int]);
            assert(chosen_at(after, from as int, retained, record, group));
            assert forall|n: int| 0 <= n < retained.nodes.len() implies found_available(
                after,
                from,
                #[trigger] retained.nodes[n],
            ) by {
                carry_available(b.0, after, a.0.calls.len(), from, retained.nodes[n]);
            }
        }
    }
}

/// The calls that move one group between running and stopped, beside those that change nothing.
pub open spec fn settles(group: PlacementGroupId) -> Calls {
    |call: NodeModelCall|
        !call.mutates() || call == (NodeModelCall::StartGroup { placement_group_id: group })
            || call == (NodeModelCall::StopGroup { placement_group_id: group })
}

proof fn group_is_resettled(
    world: NodeModelWorld,
    group: PlacementGroupId,
    state: PlacementGroupState,
)
    ensures
        only(world, group_resettled(world, group, state).0, settles(group)),
        group_resettled(world, group, state).1 is Ok ==> ends_in(
            group_resettled(world, group, state).0,
            world.calls.len(),
            group,
            state,
        ),
{
    step_running(world, group, settles(group));
    step_stopped(world, group, settles(group));
}

/// The calls that detach one group from a service, beside those that change nothing.
pub open spec fn detaches_one(service: ModelServiceId, group: PlacementGroupId) -> Calls {
    |call: NodeModelCall| !call.mutates() || detaches(call, service, group)
}

/// The calls that attach one group to a service, beside those that change nothing.
pub open spec fn attaches_one(service: ModelServiceId, group: PlacementGroupId) -> Calls {
    |call: NodeModelCall| !call.mutates() || attaches(call, service, group)
}

proof fn group_is_rebound(
    world: NodeModelWorld,
    journal: NodeModelJournalView,
    retained: NodeModelRetainedGroupView,
    group: PlacementGroupId,
)
    requires
        group == retained.source_group_id || group == retained.restoration_group_id,
    ensures
        ({
            let (after, result) = retained_rebound(world, journal, retained, group);
            let source = retained.source_group_id;
            &&& only(world, after, rebuilds_one(journal.service_id, retained))
            &&& result is Ok ==> {
                &&& ends_bound(after, world.calls.len(), journal.service_id, group)
                &&& ends_in(after, world.calls.len(), group, retained.initial_state)
                &&& group != source ==> ends_unbound(
                    after,
                    world.calls.len(),
                    journal.service_id,
                    source,
                )
            }
        }),
{
    let (after, result) = retained_rebound(world, journal, retained, group);
    let source = retained.source_group_id;
    let service = journal.service_id;
    let from = world.calls.len();
    let allowed = rebuilds_one(service, retained);
    let detach = group_phase("retained."@, source, ".detach"@);
    let attach = group_phase("retained."@, group, ".attach"@);
    let detaching = detaches_one(service, source);
    let attaching = attaches_one(service, group);
    let settling = settles(group);
    step_unbound(world, journal, source, detach, source == group, detaching);
    let b = group_detached(world, journal, source, detach, source == group);
    lemma_widened(world, b.0, detaching, allowed);
    if b.1 is Ok {
        step_bound(b.0, journal, group, attach, attaching);
        let c = group_attached(b.0, journal, group, attach);
        lemma_widened(b.0, c.0, attaching, allowed);
        join(world, b.0, c.0, allowed);
        if c.1 is Ok {
            group_is_resettled(c.0, group, retained.initial_state);
            lemma_widened(c.0, after, settling, allowed);
            join(world, c.0, after, allowed);
            if result is Ok {
                carry_bound(c.0, after, b.0.calls.len(), service, group, settling);
                lemma_bound_from(after, b.0.calls.len(), from, service, group);
                assert(only(after, after, |call: NodeModelCall| false));
                carry_state(
                    after,
                    after,
                    c.0.calls.len(),
                    from,
                    group,
                    retained.initial_state,
                    |call: NodeModelCall| false,
                );
                if group != source {
                    carry_unbound(b.0, c.0, from, service, source, attaching);
                    carry_unbound(c.0, after, from, service, source, settling);
                }
            }
        }
    }
}

/// One group takes the place of a retained one: the latter is detached where it is another group,
/// the former attached and brought to the state.
spec fn retained_rebound(
    world: NodeModelWorld,
    journal: NodeModelJournalView,
    retained: NodeModelRetainedGroupView,
    group: PlacementGroupId,
) -> (NodeModelWorld, Result<(), NodeModelError>) {
    let source = retained.source_group_id;
    let (world, detached) = group_detached(
        world,
        journal,
        source,
        group_phase("retained."@, source, ".detach"@),
        source == group,
    );
    match detached {
        Err(error) => (world, Err(error)),
        Ok(_) => {
            let (world, attached) = group_attached(
                world,
                journal,
                group,
                group_phase("retained."@, group, ".attach"@),
            );
            match attached {
                Err(error) => (world, Err(error)),
                Ok(_) => group_resettled(world, group, retained.initial_state),
            }
        },
    }
}

proof fn retained_is_back(world: NodeModelWorld, journal: NodeModelJournalView, k: int)
    requires
        0 <= k < journal.retained_groups.len(),
    ensures
        ({
            let (after, result) = retained_restored(world, journal, k);
            let retained = journal.retained_groups[k];
            &&& only(world, after, rebuilds_one(journal.service_id, retained))
            &&& result is Ok ==> is_back(
                after,
                world.calls.len(),
                journal.service_id,
                retained,
            )
        }),
{
    let (after, result) = retained_restored(world, journal, k);
    let retained = journal.retained_groups[k];
    let source = retained.source_group_id;
    let service = journal.service_id;
    let from = world.calls.len();
    let allowed = rebuilds_one(service, retained);
    retained_is_rebuilt(world, journal, k);
    let a = retained_rebuilt(world, journal, k);
    lemma_widened(
        world,
        a.0,
        |call: NodeModelCall| !call.mutates() || stages(call, retained.restoration_group_id),
        allowed,
    );
    if let Ok(group) = a.1 {
        assert((after, result) == retained_rebound(a.0, journal, retained, group));
        let (at, record) = choose|at: int, record: PlacementRecordView|
            from <= at < a.0.calls.len() && #[trigger] chosen_at(
                a.0,
                at,
                retained,
                record,
                group,
            );
        group_is_rebound(a.0, journal, retained, group);
        join(world, a.0, after, allowed);
        if result is Ok {
            lemma_widened(a.0, after, allowed, any_call());
            lemma_bound_from(after, a.0.calls.len(), from, service, group);
            assert(only(after, after, |call: NodeModelCall| false));
            carry_state(
                after,
                after,
                a.0.calls.len(),
                from,
                group,
                retained.initial_state,
                |call: NodeModelCall| false,
            );
            if group != source {
                lemma_unbound_from(after, a.0.calls.len(), from, service, source);
            }
            assert(after.calls[at] == a.0.calls[at]);
            assert(chosen_at(after, at, retained, record, group));
            assert forall|n: int| 0 <= n < retained.nodes.len() implies found_available(
                after,
                from,
                #[trigger] retained.nodes[n],
            ) by {
                carry_available(a.0, after, from, from, retained.nodes[n]);
            }
            assert(stands_again(after, from, service, retained, group));
        }
    }
}

/// The identities that a reversal deals with are apart: the groups that were committed, those that
/// were replaced, and those that may stand for the latter.
pub open spec fn groups_apart(journal: NodeModelJournalView) -> bool {
    let retained = journal.retained_groups;
    &&& forall|i: int, j: int|
        0 <= i < retained.len() && 0 <= j < retained.len() ==> (#[trigger] retained[i]).source_group_id
            != (#[trigger] retained[j]).restoration_group_id && (i != j
            ==> retained[i].source_group_id != retained[j].source_group_id
            && retained[i].restoration_group_id != retained[j].restoration_group_id)
    &&& forall|i: int, j: int|
        0 <= i < journal.placement_group_ids.len() && 0 <= j < retained.len() ==> (
        #[trigger] journal.placement_group_ids[i]) != (#[trigger] retained[j]).source_group_id
            && journal.placement_group_ids[i] != retained[j].restoration_group_id
}

proof fn every_retained_back(world: NodeModelWorld, journal: NodeModelJournalView, at: int)
    requires
        0 <= at <= journal.retained_groups.len(),
        groups_apart(journal),
    ensures
        ({
            let (after, result) = all_retained_restored(world, journal, at);
            &&& only(world, after, rebuilds_of(journal))
            &&& forall|k: int|
                0 <= k < at ==> #[trigger] rests_untouched(
                    world,
                    after,
                    journal.retained_groups[k],
                )
            &&& result is Ok ==> forall|k: int|
                at <= k < journal.retained_groups.len() ==> is_back(
                    after,
                    world.calls.len(),
                    journal.service_id,
                    #[trigger] journal.retained_groups[k],
                )
        }),
    decreases journal.retained_groups.len() - at,
{
    let wide = rebuilds_of(journal);
    let all = journal.retained_groups;
    let service = journal.service_id;
    let (after, result) = all_retained_restored(world, journal, at);
    if at < all.len() {
        retained_is_back(world, journal, at);
        let a = retained_restored(world, journal, at);
        let narrow = rebuilds_one(service, all[at]);
        lemma_widened(world, a.0, narrow, wide);
        assert forall|k: int| 0 <= k < at implies #[trigger] rests_untouched(
            world,
            a.0,
            all[k],
        ) by {
            assert(all[k].source_group_id != all[at].restoration_group_id);
            assert(all[at].source_group_id != all[k].restoration_group_id);
            assert(spares(narrow, all[k].source_group_id));
            assert(spares(narrow, all[k].restoration_group_id));
            lemma_widened(world, a.0, narrow, sparing(all[k]));
        }
        if a.1 is Ok {
            every_retained_back(a.0, journal, at + 1);
            join(world, a.0, after, wide);
            assert forall|k: int| 0 <= k < at implies #[trigger] rests_untouched(
                world,
                after,
                all[k],
            ) by {
                assert(rests_untouched(world, a.0, all[k]));
                assert(rests_untouched(a.0, after, all[k]));
                join(world, a.0, after, sparing(all[k]));
            }
            if result is Ok {
                assert forall|k: int| at <= k < all.len() implies is_back(
                    after,
                    world.calls.len(),
                    service,
                    #[trigger] all[k],
                ) by {
                    if k == at {
                        assert(rests_untouched(a.0, after, all[k]));
                        carry_back(
                            a.0,
                            after,
                            world.calls.len(),
                            world.calls.len(),
                            service,
                            all[k],
                            sparing(all[k]),
                        );
                    } else {
                        assert(only(after, after, sparing(all[k])));
                        carry_back(
                            after,
                            after,
                            a.0.calls.len(),
                            world.calls.len(),
                            service,
                            all[k],
                            sparing(all[k]),
                        );
                    }
                }
            }
        }
    }
}

/// The calls that change neither a retained group nor the one that may stand for it.
pub open spec fn sparing(retained: NodeModelRetainedGroupView) -> Calls {
    |call: NodeModelCall|
        !touches(call, retained.source_group_id) && !touches(call, retained.restoration_group_id)
}

/// Nothing changes a retained group or the one that may stand for it.
pub open spec fn rests_untouched(
    world: NodeModelWorld,
    after: NodeModelWorld,
    retained: NodeModelRetainedGroupView,
) -> bool {
    only(world, after, sparing(retained))
}

// ---------------------------------------------------------------------------
// Reversals
// ---------------------------------------------------------------------------

/// The intent that a service is brought back to: it runs when one of the states is running.
pub open spec fn former_intent(some_ran: bool) -> ModelServiceDesiredState {
    if some_ran {
        ModelServiceDesiredState::Running
    } else {
        ModelServiceDesiredState::Stopped
    }
}

/// Some retained group was running.
pub open spec fn some_retained_ran(journal: NodeModelJournalView) -> bool {
    exists|k: int|
        0 <= k < journal.retained_groups.len() && (
        #[trigger] journal.retained_groups[k]).initial_state == PlacementGroupState::Running
}

/// Some targeted group was running.
pub open spec fn some_initial_ran(journal: NodeModelJournalView) -> bool {
    exists|k: int|
        0 <= k < journal.initial_group_states.len() && (
        #[trigger] journal.initial_group_states[k]).state == PlacementGroupState::Running
}

/// What the reversal of a replacement may do, beside what changes nothing: release the committed
/// groups, bring the replaced ones back, bring the service back to its intent, and remove the
/// runtimes that were created.
pub open spec fn reversing_replacement(journal: NodeModelJournalView) -> Calls {
    |call: NodeModelCall|
        {
            ||| releases_of(journal.placement_group_ids)(call)
            ||| rebuilds_of(journal)(call)
            ||| moves(call, journal.service_id, former_intent(some_retained_ran(journal)))
            ||| retires_created(journal.runtime_receipts)(call)
        }
}

/// Reversing an update or rollback, when it succeeds, leaves none of the committed groups there,
/// has every replaced group back in the state that it had and the service with its former intent,
/// and settles every runtime that the command created. Whatever comes of it, it does nothing else,
/// and removes no runtime that some group binds.
#[verifier::rlimit(60)]
#[verifier::spinoff_prover]
pub proof fn law_replacement_reversal_restores_every_group(
    world: NodeModelWorld,
    journal: NodeModelJournalView,
)
    requires
        journal.action == NodeModelAction::Update || journal.action == NodeModelAction::Rollback,
        groups_apart(journal),
    ensures
        ({
            let (after, result) = compensated(world, journal);
            let from = world.calls.len();
            let service = journal.service_id;
            &&& only(world, after, reversing_replacement(journal))
            &&& removes_unbound(after, from)
            &&& result is Ok ==> {
                &&& forall|k: int|
                    0 <= k < journal.placement_group_ids.len() ==> withdrawn(
                        after,
                        from,
                        service,
                        #[trigger] journal.placement_group_ids[k],
                        false,
                    )
                &&& forall|k: int|
                    0 <= k < journal.retained_groups.len() ==> is_back(
                        after,
                        from,
                        service,
                        #[trigger] journal.retained_groups[k],
                    )
                &&& ends_intending(
                    after,
                    from,
                    service,
                    former_intent(some_retained_ran(journal)),
                )
                &&& forall|id: RuntimeInstallationId| #[trigger]
                    created_in(journal.runtime_receipts, id) ==> runtime_settled(after, from, id)
            }
        }),
{
    let (after, result) = compensated(world, journal);
    let from = world.calls.len();
    let service = journal.service_id;
    let wide = reversing_replacement(journal);
    let groups = journal.placement_group_ids;
    let retained = journal.retained_groups;
    let receipts = journal.runtime_receipts;
    let releasing = releases_of(groups);
    let rebuilding = rebuilds_of(journal);
    every_replacement_removed(world, journal, groups.len() as int);
    let a = replacements_removed(world, journal, groups.len() as int);
    lemma_widened(world, a.0, releasing, wide);
    lemma_none_removed(world, a.0, releasing);
    if a.1 is Ok {
        every_retained_back(a.0, journal, 0);
        let b = all_retained_restored(a.0, journal, 0);
        lemma_widened(a.0, b.0, rebuilding, wide);
        join(world, a.0, b.0, wide);
        lemma_none_removed(a.0, b.0, rebuilding);
        lemma_widened(a.0, b.0, rebuilding, any_call());
        lemma_unbound_joined(a.0, b.0, from);
        if b.1 is Ok {
            let state = former_intent(some_retained_ran(journal));
            assert(state == intent(any_retained_running(retained)));
            let moving = moves_to(service, state);
            step_intending(b.0, journal, "service.transition"@, state, moving);
            let c = service_in_state(b.0, journal, "service.transition"@, state);
            lemma_widened(b.0, c.0, moving, wide);
            join(world, b.0, c.0, wide);
            lemma_none_removed(b.0, c.0, moving);
            lemma_widened(b.0, c.0, moving, any_call());
            lemma_unbound_joined(b.0, c.0, from);
            if c.1 is Ok {
                let retiring = retires_created(receipts);
                every_created_retired(c.0, receipts, receipts.len() as int);
                lemma_widened(c.0, after, retiring, wide);
                join(world, c.0, after, wide);
                lemma_widened(c.0, after, retiring, any_call());
                lemma_unbound_joined(c.0, after, from);
                assert(receipts.take(receipts.len() as int) =~= receipts);
                if result is Ok {
                    carry_intending(c.0, after, b.0.calls.len(), service, state, retiring);
                    lemma_intending_from(after, b.0.calls.len(), from, service, state);
                    assert forall|k: int| 0 <= k < groups.len() implies withdrawn(
                        after,
                        from,
                        service,
                        #[trigger] groups[k],
                        false,
                    ) by {
                        let group = groups[k];
                        lemma_rebuilds_spare(journal, k);
                        carry_withdrawn(a.0, b.0, from, from, service, group, false, rebuilding);
                        carry_withdrawn(b.0, c.0, from, from, service, group, false, moving);
                        carry_withdrawn(c.0, after, from, from, service, group, false, retiring);
                    }
                    assert forall|k: int| 0 <= k < retained.len() implies is_back(
                        after,
                        from,
                        service,
                        #[trigger] retained[k],
                    ) by {
                        let middle = a.0.calls.len();
                        carry_back(b.0, c.0, middle, from, service, retained[k], moving);
                        carry_back(c.0, after, from, from, service, retained[k], retiring);
                    }
                    assert forall|id: RuntimeInstallationId| #[trigger]
                        created_in(receipts, id) implies runtime_settled(after, from, id) by {
                        assert(only(after, after, any_call()));
                        carry_settled(after, after, c.0.calls.len(), from, id);
                    }
                }
            }
        }
    }
}

proof fn lemma_rebuilds_spare(journal: NodeModelJournalView, k: int)
    requires
        groups_apart(journal),
        0 <= k < journal.placement_group_ids.len(),
    ensures
        forall|call: NodeModelCall| #[trigger]
            rebuilds_of(journal)(call) ==> !stages(call, journal.placement_group_ids[k])
                && !attaches(call, journal.service_id, journal.placement_group_ids[k]),
{
    let group = journal.placement_group_ids[k];
    let retained = journal.retained_groups;
    assert forall|call: NodeModelCall| #[trigger] rebuilds_of(journal)(call) implies !stages(
        call,
        group,
    ) && !attaches(call, journal.service_id, group) by {
        if call.mutates() {
            let j = choose|j: int|
                0 <= j < retained.len() && #[trigger] rebuilds_one(
                    journal.service_id,
                    retained[j],
                )(call);
            assert(group != retained[j].source_group_id);
        }
    }
}

proof fn lemma_none_removed(earlier: NodeModelWorld, later: NodeModelWorld, allowed: Calls)
    requires
        only(earlier, later, allowed),
        forall|call: NodeModelCall| #[trigger]
            allowed(call) ==> !(call is RemoveRuntime) && !(call is RemoveRuntimePreservingModels),
    ensures
        removes_unbound(later, earlier.calls.len()),
{
    assert forall|at: int, installation_id: RuntimeInstallationId|
        earlier.calls.len() <= at < later.calls.len() && #[trigger] removes_runtime(
            later.calls[at],
            installation_id,
        ) implies unbound_before(later, earlier.calls.len(), at, installation_id) by {
        assert(allowed(later.calls[at]));
    }
}

/// What becomes of the service when an installation is reversed: it cannot be read, is removed, or
/// still holds a group.
pub open spec fn service_settled(
    world: NodeModelWorld,
    from: nat,
    service: ModelServiceId,
) -> bool {
    ||| unreadable(world, from, service)
    ||| ends_intending(world, from, service, ModelServiceDesiredState::Removed)
    ||| exists|at: int| from <= at < world.calls.len() && #[trigger] holds_some(world, at, service)
}

/// One call reads a service that holds a group.
pub open spec fn holds_some(world: NodeModelWorld, at: int, service: ModelServiceId) -> bool {
    &&& world.calls[at] == (NodeModelCall::Service { service_id: service })
    &&& (world.script.service)(at as nat) matches Ok(read)
    &&& read.service.placement_group_ids.len() > 0
}

/// A call that moves a service removes it, two calls after it was read to hold no group.
pub open spec fn removes_only_empty(
    world: NodeModelWorld,
    from: nat,
    service: ModelServiceId,
) -> bool {
    forall|at: int|
        from <= at < world.calls.len() && (#[trigger] world.calls[at]) is TransitionService ==> {
            &&& moves(world.calls[at], service, ModelServiceDesiredState::Removed)
            &&& from <= at - 2
            &&& world.calls[at - 2] == (NodeModelCall::Service { service_id: service })
            &&& reads_empty(world, at - 2)
        }
}

/// The service that one call reads holds no group.
pub open spec fn reads_empty(world: NodeModelWorld, at: int) -> bool {
    (world.script.service)(at as nat) matches Ok(read) && read.service.placement_group_ids.len()
        == 0
}

/// What the reversal of an installation may do, beside what changes nothing: release the committed
/// groups, remove the service and the runtimes that were created.
pub open spec fn reversing_install(journal: NodeModelJournalView) -> Calls {
    |call: NodeModelCall|
        {
            ||| releases_of(journal.placement_group_ids)(call)
            ||| moves(call, journal.service_id, ModelServiceDesiredState::Removed)
            ||| retires_created(journal.runtime_receipts)(call)
        }
}

/// Reversing an installation, when it succeeds, leaves none of the committed groups there, removes
/// the service unless it still holds a group, and settles every runtime that the command created.
/// Whatever comes of it, it does nothing else, and removes no runtime that some group binds and no
/// service that holds a group.
pub proof fn law_install_reversal_clears_every_group(
    world: NodeModelWorld,
    journal: NodeModelJournalView,
)
    requires
        journal.action == NodeModelAction::Install,
    ensures
        ({
            let (after, result) = compensated(world, journal);
            let from = world.calls.len();
            let service = journal.service_id;
            &&& only(world, after, reversing_install(journal))
            &&& removes_unbound(after, from)
            &&& removes_only_empty(after, from, service)
            &&& result is Ok ==> {
                &&& forall|k: int|
                    0 <= k < journal.placement_group_ids.len() ==> withdrawn(
                        after,
                        from,
                        service,
                        #[trigger] journal.placement_group_ids[k],
                        true,
                    )
                &&& service_settled(after, from, service)
                &&& forall|id: RuntimeInstallationId| #[trigger]
                    created_in(journal.runtime_receipts, id) ==> runtime_settled(after, from, id)
            }
        }),
{
    let (after, result) = compensated(world, journal);
    let from = world.calls.len();
    let service = journal.service_id;
    let removed = ModelServiceDesiredState::Removed;
    let wide = reversing_install(journal);
    let groups = journal.placement_group_ids;
    let receipts = journal.runtime_receipts;
    let releasing = releases_of(groups);
    every_staged_undone(world, journal, groups.len() as int);
    let a = staged_undone(world, journal, groups.len() as int);
    lemma_widened(world, a.0, releasing, wide);
    lemma_none_removed(world, a.0, releasing);
    assert forall|at: int| from <= at < a.0.calls.len() implies !((
    #[trigger] a.0.calls[at]) is TransitionService) by {
        assert(releasing(a.0.calls[at]));
    }
    if a.1 is Ok {
        let b = empty_service_removed(a.0, journal);
        let moving = moves_to(service, removed);
        let first = a.0.calls.len() as int;
        assert(only(a.0, b.0, moving));
        lemma_widened(a.0, b.0, moving, wide);
        join(world, a.0, b.0, wide);
        lemma_none_removed(a.0, b.0, moving);
        lemma_widened(a.0, b.0, moving, any_call());
        lemma_unbound_joined(a.0, b.0, from);
        assert(b.0.calls[first] == (NodeModelCall::Service { service_id: service }));
        assert(removes_only_empty(b.0, from, service)) by {
            assert forall|at: int|
                from <= at < b.0.calls.len() && (#[trigger] b.0.calls[at]) is TransitionService
                implies at == first + 2 by {
                if at < first {
                    assert(b.0.calls[at] == a.0.calls[at]);
                }
            }
        }
        if b.1 is Ok {
            if (b.0.script.service)(first as nat) is Err {
                assert(unreadable(b.0, from, service));
            } else if b.0.calls.len() > first + 1 {
                assert(intends_at(b.0, first + 2, service, removed));
                assert(ends_intending(b.0, from, service, removed));
            } else if (b.0.script.service)(first as nat)->Ok_0.service.desired_state == removed {
                assert(intends_at(b.0, first, service, removed));
                assert(ends_intending(b.0, from, service, removed));
            } else {
                assert(holds_some(b.0, first, service));
            }
            assert(service_settled(b.0, from, service));
            let retiring = retires_created(receipts);
            every_created_retired(b.0, receipts, receipts.len() as int);
            lemma_widened(b.0, after, retiring, wide);
            join(world, b.0, after, wide);
            lemma_widened(b.0, after, retiring, any_call());
            lemma_unbound_joined(b.0, after, from);
            assert(removes_only_empty(after, from, service)) by {
                assert forall|at: int|
                    from <= at < after.calls.len() && (
                    #[trigger] after.calls[at]) is TransitionService implies at < b.0.calls.len()
                    && after.calls[at] == b.0.calls[at] && after.calls[at - 2] == b.0.calls[at
                    - 2] by {
                    if at >= b.0.calls.len() {
                        assert(retiring(after.calls[at]));
                    }
                }
            }
            assert(receipts.take(receipts.len() as int) =~= receipts);
            if result is Ok {
                if unreadable(b.0, from, service) {
                    carry_unreadable(b.0, after, from, from, service);
                } else if ends_intending(b.0, from, service, removed) {
                    carry_intending(b.0, after, from, service, removed, retiring);
                } else {
                    let at = choose|at: int|
                        from <= at < b.0.calls.len() && #[trigger] holds_some(b.0, at, service);
                    assert(after.calls[at] == b.0.calls[at]);
                    assert(holds_some(after, at, service));
                }
                assert forall|k: int| 0 <= k < groups.len() implies withdrawn(
                    after,
                    from,
                    service,
                    #[trigger] groups[k],
                    true,
                ) by {
                    carry_withdrawn(a.0, b.0, from, from, service, groups[k], true, moving);
                    carry_withdrawn(b.0, after, from, from, service, groups[k], true, retiring);
                }
                assert forall|id: RuntimeInstallationId| #[trigger]
                    created_in(receipts, id) implies runtime_settled(after, from, id) by {
                    assert(only(after, after, any_call()));
                    carry_settled(after, after, b.0.calls.len(), from, id);
                }
            }
        }
    }
}

// ---------------------------------------------------------------------------
// Lifecycle commands
// ---------------------------------------------------------------------------

/// What brings the targeted groups of a lifecycle command back, beside what changes nothing: those
/// that ran are started or recovered, without an acknowledgement, and those at rest are stopped.
pub open spec fn resettles_of(states: Seq<InitialGroupState>) -> Calls {
    |call: NodeModelCall|
        match call {
            NodeModelCall::StartGroup { placement_group_id } => was_in(
                states,
                placement_group_id,
                true,
            ),
            NodeModelCall::RecoverGroup { placement_group_id, acknowledge_protection_trips } => {
                &&& was_in(states, placement_group_id, true)
                &&& !acknowledge_protection_trips
            },
            NodeModelCall::StopGroup { placement_group_id } => was_in(
                states,
                placement_group_id,
                false,
            ),
            _ => !call.mutates(),
        }
}

/// One group was running, or at rest, when its command began.
pub open spec fn was_in(
    states: Seq<InitialGroupState>,
    group: PlacementGroupId,
    running: bool,
) -> bool {
    exists|k: int|
        0 <= k < states.len() && (#[trigger] states[k]).placement_group_id == group && (
        states[k].state == PlacementGroupState::Running <==> running)
}

/// No group occurs twice.
pub open spec fn states_apart(states: Seq<InitialGroupState>) -> bool {
    forall|i: int, j: int|
        0 <= i < j < states.len() ==> (#[trigger] states[i]).placement_group_id != (
        #[trigger] states[j]).placement_group_id
}

/// The calls that do not change one group.
pub open spec fn elsewhere(group: PlacementGroupId) -> Calls {
    |call: NodeModelCall| !touches(call, group)
}

proof fn every_group_resettled(world: NodeModelWorld, states: Seq<InitialGroupState>, at: int)
    requires
        0 <= at <= states.len(),
    ensures
        ({
            let (after, result) = initial_resettled(world, states, at);
            &&& only(world, after, resettles_of(states))
            &&& states_apart(states) ==> forall|k: int|
                0 <= k < at ==> only(
                    world,
                    after,
                    elsewhere((#[trigger] states[k]).placement_group_id),
                )
            &&& result is Ok && states_apart(states) ==> forall|k: int|
                at <= k < states.len() ==> ends_in(
                    after,
                    world.calls.len(),
                    (#[trigger] states[k]).placement_group_id,
                    states[k].state,
                )
        }),
    decreases states.len() - at,
{
    let wide = resettles_of(states);
    let (after, result) = initial_resettled(world, states, at);
    if at < states.len() {
        let group = states[at].placement_group_id;
        let state = states[at].state;
        let a = if state == PlacementGroupState::Running {
            group_recovered(world, group, false)
        } else {
            group_stopped(world, group)
        };
        let narrow = |call: NodeModelCall|
            match call {
                NodeModelCall::StartGroup { placement_group_id } => placement_group_id == group
                    && state == PlacementGroupState::Running,
                NodeModelCall::RecoverGroup {
                    placement_group_id,
                    acknowledge_protection_trips,
                } => placement_group_id == group && state == PlacementGroupState::Running
                    && !acknowledge_protection_trips,
                NodeModelCall::StopGroup { placement_group_id } => placement_group_id == group
                    && state != PlacementGroupState::Running,
                _ => !call.mutates(),
            };
        if state == PlacementGroupState::Running {
            step_recovered(world, group, false, narrow);
        } else {
            step_stopped(world, group, narrow);
        }
        assert(states[at].placement_group_id == group);
        lemma_widened(world, a.0, narrow, wide);
        if states_apart(states) {
            assert forall|k: int| 0 <= k < at implies only(
                world,
                a.0,
                elsewhere((#[trigger] states[k]).placement_group_id),
            ) by {
                assert(states[k].placement_group_id != group);
                lemma_widened(world, a.0, narrow, elsewhere(states[k].placement_group_id));
            }
        }
        let goes_on = a.1 is Ok && (state == PlacementGroupState::Running || state
            == PlacementGroupState::Staged || state == PlacementGroupState::Stopped);
        if goes_on {
            every_group_resettled(a.0, states, at + 1);
            join(world, a.0, after, wide);
            if states_apart(states) {
                assert forall|k: int| 0 <= k < at implies only(
                    world,
                    after,
                    elsewhere((#[trigger] states[k]).placement_group_id),
                ) by {
                    join(world, a.0, after, elsewhere(states[k].placement_group_id));
                }
                if result is Ok {
                    assert forall|k: int| at <= k < states.len() implies ends_in(
                        after,
                        world.calls.len(),
                        (#[trigger] states[k]).placement_group_id,
                        states[k].state,
                    ) by {
                        let other = states[k].placement_group_id;
                        let late = if k == at {
                            world.calls.len()
                        } else {
                            a.0.calls.len()
                        };
                        if k == at {
                            assert(only(a.0, after, elsewhere(other)));
                            carry_state(
                                a.0,
                                after,
                                late,
                                world.calls.len(),
                                other,
                                states[k].state,
                                elsewhere(other),
                            );
                        } else {
                            assert(only(after, after, elsewhere(other)));
                            carry_state(
                                after,
                                after,
                                late,
                                world.calls.len(),
                                other,
                                states[k].state,
                                elsewhere(other),
                            );
                        }
                    }
                }
            }
        }
    }
}

/// Reversing a lifecycle command, when it succeeds, has every targeted group back in the state that
/// it had and the service with its former intent. Whatever comes of it, it changes no other group.
pub proof fn law_lifecycle_reversal_restores_every_state(
    world: NodeModelWorld,
    journal: NodeModelJournalView,
)
    requires
        journal.action != NodeModelAction::Install,
        journal.action != NodeModelAction::Update,
        journal.action != NodeModelAction::Rollback,
        journal.action != NodeModelAction::Remove,
        states_apart(journal.initial_group_states),
    ensures
        ({
            let (after, result) = compensated(world, journal);
            let from = world.calls.len();
            let states = journal.initial_group_states;
            let state = former_intent(some_initial_ran(journal));
            &&& only(
                world,
                after,
                |call: NodeModelCall|
                    resettles_of(states)(call) || moves(call, journal.service_id, state),
            )
            &&& result is Ok ==> {
                &&& forall|k: int|
                    0 <= k < states.len() ==> ends_in(
                        after,
                        from,
                        (#[trigger] states[k]).placement_group_id,
                        states[k].state,
                    )
                &&& ends_intending(after, from, journal.service_id, state)
            }
        }),
{
    let (after, result) = compensated(world, journal);
    let from = world.calls.len();
    let states = journal.initial_group_states;
    let service = journal.service_id;
    let state = former_intent(some_initial_ran(journal));
    let wide = |call: NodeModelCall|
        resettles_of(states)(call) || moves(call, journal.service_id, state);
    every_group_resettled(world, states, 0);
    let a = initial_resettled(world, states, 0);
    lemma_widened(world, a.0, resettles_of(states), wide);
    if a.1 is Ok {
        assert(state == intent(any_initial_running(states)));
        let moving = moves_to(service, state);
        step_intending(a.0, journal, "service.transition"@, state, moving);
        lemma_widened(a.0, after, moving, wide);
        join(world, a.0, after, wide);
        if result is Ok {
            lemma_intending_from(after, a.0.calls.len(), from, service, state);
            assert forall|k: int| 0 <= k < states.len() implies ends_in(
                after,
                from,
                (#[trigger] states[k]).placement_group_id,
                states[k].state,
            ) by {
                carry_state(
                    a.0,
                    after,
                    from,
                    from,
                    states[k].placement_group_id,
                    states[k].state,
                    moving,
                );
            }
        }
    }
}

/// A removal is never reversed: asking for it changes nothing and is refused.
pub proof fn law_removal_is_never_reversed(world: NodeModelWorld, journal: NodeModelJournalView)
    requires
        journal.action == NodeModelAction::Remove,
    ensures
        compensated(world, journal) == (
            world,
            Err::<(), NodeModelError>(NodeModelError::RecoveryRequired),
        ),
{
}

pub(crate) proof fn lemma_rebuilds_only(
    world: NodeModelWorld,
    journal: NodeModelJournalView,
    at: int,
)
    requires
        0 <= at <= journal.retained_groups.len(),
    ensures
        only(world, all_retained_restored(world, journal, at).0, rebuilds_of(journal)),
    decreases journal.retained_groups.len() - at,
{
    let wide = rebuilds_of(journal);
    if at < journal.retained_groups.len() {
        retained_is_back(world, journal, at);
        let a = retained_restored(world, journal, at);
        let narrow = rebuilds_one(journal.service_id, journal.retained_groups[at]);
        lemma_widened(world, a.0, narrow, wide);
        if a.1 is Ok {
            lemma_rebuilds_only(a.0, journal, at + 1);
            join(world, a.0, all_retained_restored(world, journal, at).0, wide);
        }
    }
}

pub(crate) proof fn lemma_replacement_reversal_only(
    world: NodeModelWorld,
    journal: NodeModelJournalView,
)
    ensures
        only(world, replacement_compensated(world, journal).0, reversing_replacement(journal)),
{
    let after = replacement_compensated(world, journal).0;
    let wide = reversing_replacement(journal);
    let groups = journal.placement_group_ids;
    let receipts = journal.runtime_receipts;
    every_replacement_removed(world, journal, groups.len() as int);
    let a = replacements_removed(world, journal, groups.len() as int);
    lemma_widened(world, a.0, releases_of(groups), wide);
    if a.1 is Ok {
        lemma_rebuilds_only(a.0, journal, 0);
        let b = all_retained_restored(a.0, journal, 0);
        lemma_widened(a.0, b.0, rebuilds_of(journal), wide);
        join(world, a.0, b.0, wide);
        if b.1 is Ok {
            let state = former_intent(some_retained_ran(journal));
            assert(state == intent(any_retained_running(journal.retained_groups)));
            let moving = moves_to(journal.service_id, state);
            step_intending(b.0, journal, "service.transition"@, state, moving);
            let c = service_in_state(b.0, journal, "service.transition"@, state);
            lemma_widened(b.0, c.0, moving, wide);
            join(world, b.0, c.0, wide);
            if c.1 is Ok {
                every_created_retired(c.0, receipts, receipts.len() as int);
                lemma_widened(c.0, after, retires_created(receipts), wide);
                join(world, c.0, after, wide);
            }
        }
    }
}

pub(crate) proof fn lemma_lifecycle_reversal_only(
    world: NodeModelWorld,
    journal: NodeModelJournalView,
)
    ensures
        only(
            world,
            initial_restored(world, journal).0,
            |call: NodeModelCall|
                resettles_of(journal.initial_group_states)(call) || call is TransitionService,
        ),
{
    let after = initial_restored(world, journal).0;
    let states = journal.initial_group_states;
    let wide = |call: NodeModelCall| resettles_of(states)(call) || call is TransitionService;
    every_group_resettled(world, states, 0);
    let a = initial_resettled(world, states, 0);
    lemma_widened(world, a.0, resettles_of(states), wide);
    if a.1 is Ok {
        let state = intent(any_initial_running(states));
        let moving = moves_to(journal.service_id, state);
        step_intending(a.0, journal, "service.transition"@, state, moving);
        lemma_widened(a.0, after, moving, wide);
        join(world, a.0, after, wide);
    }
}

/// Reversing an update or rollback changes no group but those that it committed, those that it
/// replaced and those that stand for the latter.
pub proof fn law_replacement_reversal_spares_other_groups(
    world: NodeModelWorld,
    journal: NodeModelJournalView,
    group: PlacementGroupId,
)
    requires
        journal.action == NodeModelAction::Update || journal.action == NodeModelAction::Rollback,
        !journal.placement_group_ids.contains(group),
        !replaced_groups(journal).contains(group),
        !restorations(journal).contains(group),
    ensures
        only(world, compensated(world, journal).0, elsewhere(group)),
{
    let reversing = reversing_replacement(journal);
    lemma_replacement_reversal_only(world, journal);
    assert forall|call: NodeModelCall| #[trigger] reversing(call) implies !touches(
        call,
        group,
    ) by {
        if call.mutates() && rebuilds_of(journal)(call) {
            let j = choose|j: int|
                0 <= j < journal.retained_groups.len() && #[trigger] rebuilds_one(
                    journal.service_id,
                    journal.retained_groups[j],
                )(call);
            assert(replaced_groups(journal)[j] != group);
            assert(restorations(journal)[j] != group);
        }
    }
    lemma_widened(world, compensated(world, journal).0, reversing, elsewhere(group));
}

} // verus!
