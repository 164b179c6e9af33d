//! What the journals of new commands record, as the requests and the reads behind them show it.

use vstd::prelude::*;

use crate::entity::{ModelServiceDesiredState, PlacementGroupState, PlacementRecordView};
use crate::identity::{law_sorted_ids, ModelServiceId, OperationId, PlacementGroupId};
use crate::node_model_compensation::compensated;
use crate::node_model_compensation_outcomes::{
    elsewhere, law_replacement_reversal_spares_other_groups, restorations,
};
use crate::node_model_contract::{
    install_group, receipt_key, planned_restoration_group, retained_group, InitialGroupState,
    NodeModelAction, NodeModelCommandIdentityView, NodeModelError, NodeModelInstallRequestView,
    NodeModelJournalState, NodeModelJournalView, NodeModelRetainedGroupView,
    NodeModelRuntimeDisposition, NodeModelRuntimeReceiptView, NodeModelUpdateRequestView,
    VersionedNodeModelJournalView,
};
use crate::node_model_coordinator::executed;
use crate::node_model_execution::rollbacks_read;
use crate::node_model_groups::{from_placement, redacted, required};
use crate::node_model_laws::{join, law_preview_changes_nothing, only};
use crate::node_model_plan_outcomes::{
    law_rollback_plan_stays_in_its_target, node_bag, reads_record, rollback_chooses,
};
use crate::node_model_planning::{
    existing_prepared, groups_retained, install_prepared, no_parts, pairs_recorded,
    retained_assignments, reused_receipts, rollback_planned, rollback_prepared, states_read, update_prepared,
    RollbackPairView, RollbackPartsView, RollbackPlanView, UpdatePlanView,
};
use crate::node_model_replacement_outcomes::{
    every_rollback_read, first_intent, law_replacement_keeps_the_intent, replaced_groups, replacing,
};
use crate::node_model_rules::{assigned_nodes, record_nodes, rollback_intent};
use crate::node_model_traces::{any_call, lemma_widened, store_keeps};
use crate::node_model_world::{NodeModelCall, NodeModelWorld};
use crate::sequence::{lemma_stable_sort, stable_sort};

verus! {

/// The journal of a new command: it names its command and service, and nothing has happened yet.
pub open spec fn begins(
    journal: NodeModelJournalView,
    identity: NodeModelCommandIdentityView,
    action: NodeModelAction,
    service_id: ModelServiceId,
    logical_model: Seq<char>,
) -> bool {
    &&& journal.operation_id == identity.operation_id
    &&& journal.idempotency_key == identity.idempotency_key
    &&& journal.action == action
    &&& journal.service_id == service_id
    &&& journal.logical_model == logical_model
    &&& journal.state == NodeModelJournalState::Prepared
    &&& journal.failure_code is None
    &&& journal.created_at == journal.updated_at
}

/// The last call commits a journal.
pub open spec fn commits(
    before: NodeModelWorld,
    after: NodeModelWorld,
    journal: NodeModelJournalView,
) -> bool {
    &&& after.calls.len() > before.calls.len()
    &&& after.calls.last() == (NodeModelCall::CreateJournal { journal })
}

/// The journal of a new installation records the requested groups, in order and as they are, with
/// one planned identity for each; nothing is committed or retained yet.
pub proof fn law_install_journal_records_the_request(
    world: NodeModelWorld,
    request: NodeModelInstallRequestView,
    journal: NodeModelJournalView,
)
    requires
        commits(world, install_prepared(world, request).0, journal),
    ensures
        begins(
            journal,
            request.identity,
            NodeModelAction::Install,
            request.service_id,
            request.logical_model,
        ),
        journal.install_groups == request.groups,
        journal.planned_group_ids.len() == request.groups.len(),
        journal.placement_group_ids.len() == 0,
        journal.retained_groups.len() == 0,
        journal.runtime_receipts.len() == 0,
        journal.initial_group_states.len() == 0,
{
}

// ---------------------------------------------------------------------------
// Lifecycle commands
// ---------------------------------------------------------------------------

/// One state is what a call read of the group.
pub open spec fn state_as_read(
    world: NodeModelWorld,
    at: int,
    service_id: ModelServiceId,
    group: PlacementGroupId,
    state: InitialGroupState,
) -> bool {
    &&& world.calls[at] == (NodeModelCall::GroupRecord { placement_group_id: group })
    &&& (world.script.group_record)(at as nat) matches Ok(Some(record))
    &&& record.group.service_id == service_id
    &&& state.placement_group_id == group
    &&& state.state == record.group.state
}

proof fn states_are_read(
    world: NodeModelWorld,
    service_id: ModelServiceId,
    groups: Seq<PlacementGroupId>,
    at: int,
    states: Seq<InitialGroupState>,
)
    requires
        0 <= at <= groups.len(),
        states.len() == at,
    ensures
        ({
            let (after, read) = states_read(world, service_id, groups, at, states);
            &&& only(world, after, |call: NodeModelCall| call is GroupRecord)
            &&& read matches Ok(read) ==> {
                &&& read.len() == groups.len()
                &&& after.calls.len() == world.calls.len() + groups.len() - at
                &&& states =~= read.take(at)
                &&& forall|k: int|
                    at <= k < groups.len() ==> state_as_read(
                        after,
                        world.calls.len() + k - at,
                        service_id,
                        groups[k],
                        #[trigger] read[k],
                    )
            }
        }),
    decreases groups.len() - at,
{
    let reading = |call: NodeModelCall| call is GroupRecord;
    let (after, read) = states_read(world, service_id, groups, at, states);
    if at < groups.len() {
        let a = required(from_placement(world.group_record(groups[at])));
        if let Ok(record) = a.1 {
            if record.group.service_id == service_id {
                let entry = InitialGroupState {
                    placement_group_id: groups[at],
                    state: record.group.state,
                };
                let more = states.push(entry);
                states_are_read(a.0, service_id, groups, at + 1, more);
                join(world, a.0, after, reading);
                if let Ok(read) = read {
                    let first = world.calls.len() as int;
                    assert(after.calls[first] == a.0.calls[first]);
                    assert(read.take(at + 1)[at] == entry);
                    assert(states =~= read.take(at)) by {
                        assert forall|i: int| 0 <= i < at implies states[i] == read[i] by {
                            assert(more[i] == read.take(at + 1)[i]);
                        }
                    }
                    assert forall|k: int| at <= k < groups.len() implies state_as_read(
                        after,
                        world.calls.len() + k - at,
                        service_id,
                        groups[k],
                        #[trigger] read[k],
                    ) by {
                        if k > at {
                            assert(a.0.calls.len() + k - (at + 1) == world.calls.len() + k - at);
                        }
                    }
                }
            }
        }
    }
}

/// The journal of a new lifecycle command records every group of the service, with the state that
/// it was read in.
pub proof fn law_lifecycle_journal_records_every_group(
    world: NodeModelWorld,
    identity: NodeModelCommandIdentityView,
    service_id: ModelServiceId,
    action: NodeModelAction,
    journal: NodeModelJournalView,
)
    requires
        commits(world, existing_prepared(world, identity, service_id, action).0, journal),
    ensures
        ({
            let after = existing_prepared(world, identity, service_id, action).0;
            let from = world.calls.len();
            &&& after.calls[from as int + 1] == (NodeModelCall::Service { service_id })
            &&& (world.script.service)(from + 1) matches Ok(read) && {
                let groups = read.service.placement_group_ids;
                &&& begins(journal, identity, action, service_id, read.service.logical_model)
                &&& journal.placement_group_ids == groups
                &&& journal.initial_group_states.len() == groups.len()
                &&& forall|k: int|
                    0 <= k < groups.len() ==> state_as_read(
                        after,
                        from + 2 + k,
                        service_id,
                        groups[k],
                        #[trigger] journal.initial_group_states[k],
                    )
            }
        }),
{
    let after = existing_prepared(world, identity, service_id, action).0;
    let from = world.calls.len();
    let a = world.read_journal(identity.operation_id);
    let b = redacted(a.0.service(service_id));
    let groups = b.1->Ok_0.service.placement_group_ids;
    states_are_read(b.0, service_id, groups, 0, Seq::empty());
    let c = states_read(b.0, service_id, groups, 0, Seq::empty());
    assert(c.1 is Ok) by {
        if c.1 is Err && a.1 is Ok && b.1 is Ok && after == c.0 && after.calls.len()
            > b.0.calls.len() {
            assert(after.calls.last() is GroupRecord);
        }
    }
    let states = c.1->Ok_0;
    lemma_widened(b.0, c.0, |call: NodeModelCall| call is GroupRecord, any_call());
    assert(only(c.0, after, any_call()));
    join(b.0, c.0, after, any_call());
    assert(after.calls[from as int + 1] == b.0.calls[from as int + 1]);
    assert forall|k: int| 0 <= k < groups.len() implies state_as_read(
        after,
        from + 2 + k,
        service_id,
        groups[k],
        #[trigger] states[k],
    ) by {
        assert(state_as_read(c.0, b.0.calls.len() + k - 0, service_id, groups[k], states[k]));
        assert(after.calls[from + 2 + k] == c.0.calls[from + 2 + k]);
    }
}

// ---------------------------------------------------------------------------
// Replacements
// ---------------------------------------------------------------------------

/// One retained group is what a call read of a group with a recorded state: the group is there, and
/// each of its assignments is kept.
pub open spec fn retained_as_read(
    world: NodeModelWorld,
    at: int,
    state: InitialGroupState,
    retained: NodeModelRetainedGroupView,
) -> bool {
    &&& retained.source_group_id == state.placement_group_id
    &&& retained.initial_state == state.state
    &&& world.calls[at] == (NodeModelCall::GroupRecord {
        placement_group_id: state.placement_group_id,
    })
    &&& (world.script.group_record)(at as nat) matches Ok(Some(record))
    &&& record.group.state != PlacementGroupState::Removed
    &&& retained.nodes.len() == record.placements.len()
    &&& forall|p: int|
        0 <= p < record.placements.len() ==> (#[trigger] retained.nodes[p]).node_id
            == record.placements[p].node_id && retained.nodes[p].installation_id
            == record.placements[p].runtime_installation_id
}

proof fn groups_are_retained(
    world: NodeModelWorld,
    operation_id: OperationId,
    states: Seq<InitialGroupState>,
    at: int,
    groups: Seq<NodeModelRetainedGroupView>,
)
    requires
        0 <= at <= states.len(),
        groups.len() == at,
        forall|i: int|
            0 <= i < at ==> (#[trigger] groups[i]).restoration_group_id
                == planned_restoration_group(operation_id, i as nat),
    ensures
        ({
            let (after, read) = groups_retained(world, operation_id, states, at, groups);
            &&& only(world, after, |call: NodeModelCall| call is GroupRecord)
            &&& read matches Ok(read) ==> {
                &&& read.len() == states.len()
                &&& after.calls.len() == world.calls.len() + states.len() - at
                &&& groups =~= read.take(at)
                &&& forall|k: int|
                    0 <= k < states.len() ==> (#[trigger] read[k]).restoration_group_id
                        == planned_restoration_group(operation_id, k as nat)
                &&& forall|k: int|
                    at <= k < states.len() ==> retained_as_read(
                        after,
                        world.calls.len() + k - at,
                        states[k],
                        #[trigger] read[k],
                    )
            }
        }),
    decreases states.len() - at,
{
    let reading = |call: NodeModelCall| call is GroupRecord;
    let (after, read) = groups_retained(world, operation_id, states, at, groups);
    if at < states.len() {
        let a = required(from_placement(world.group_record(states[at].placement_group_id)));
        if let Ok(record) = a.1 {
            let made = retained_group(
                states[at].placement_group_id,
                planned_restoration_group(operation_id, at as nat),
                states[at].state,
                retained_assignments(record.placements),
            );
            if record.group.state != PlacementGroupState::Removed && made is Ok {
                let entry = made->Ok_0;
                let more = groups.push(entry);
                groups_are_retained(a.0, operation_id, states, at + 1, more);
                join(world, a.0, after, reading);
                if let Ok(read) = read {
                    let first = world.calls.len() as int;
                    assert(after.calls[first] == a.0.calls[first]);
                    assert(read.take(at + 1)[at] == entry);
                    assert(retained_as_read(after, first, states[at], read[at]));
                    assert(groups =~= read.take(at)) by {
                        assert forall|i: int| 0 <= i < at implies groups[i] == read[i] by {
                            assert(more[i] == read.take(at + 1)[i]);
                        }
                    }
                    assert forall|k: int| at <= k < states.len() implies retained_as_read(
                        after,
                        world.calls.len() + k - at,
                        states[k],
                        #[trigger] read[k],
                    ) by {
                        if k > at {
                            assert(a.0.calls.len() + k - (at + 1) == world.calls.len() + k - at);
                        }
                    }
                }
            }
        }
    }
}

/// A replacement journal retains every group that it recorded a state of, in order: each as a call
/// from one position on read it, with a restoration identity of its own position.
pub open spec fn retains_as_read(
    world: NodeModelWorld,
    from: nat,
    journal: NodeModelJournalView,
) -> bool {
    &&& journal.retained_groups.len() == journal.initial_group_states.len()
    &&& forall|k: int|
        0 <= k < journal.retained_groups.len() ==> {
            &&& retained_as_read(
                world,
                from + k,
                journal.initial_group_states[k],
                #[trigger] journal.retained_groups[k],
            )
            &&& journal.retained_groups[k].restoration_group_id == planned_restoration_group(
                journal.operation_id,
                k as nat,
            )
        }
}

/// The journal of a new update records the planned groups with one planned identity for each, and
/// retains exactly the groups of the plan as they were read.
pub proof fn law_update_journal_records_the_plan(
    world: NodeModelWorld,
    request: NodeModelUpdateRequestView,
    plan: UpdatePlanView,
    journal: NodeModelJournalView,
)
    requires
        commits(world, update_prepared(world, request, plan).0, journal),
    ensures
        begins(
            journal,
            request.identity,
            NodeModelAction::Update,
            plan.service.service_id,
            plan.service.logical_model,
        ),
        journal.install_groups == plan.groups,
        journal.initial_group_states == plan.states,
        journal.planned_group_ids.len() == plan.groups.len(),
        journal.placement_group_ids.len() == 0,
        journal.runtime_receipts.len() == 0,
        retains_as_read(
            update_prepared(world, request, plan).0,
            world.calls.len() + 1,
            journal,
        ),
{
    let after = update_prepared(world, request, plan).0;
    let op = request.identity.operation_id;
    let a = world.read_journal(op);
    groups_are_retained(a.0, op, plan.states, 0, Seq::empty());
    let b = groups_retained(a.0, op, plan.states, 0, Seq::empty());
    assert(b.1 is Ok) by {
        if b.1 is Err && a.1 is Ok && after == b.0 && after.calls.len() > a.0.calls.len() {
            assert(after.calls.last() is GroupRecord);
        }
    }
    let retained = b.1->Ok_0;
    assert forall|k: int| 0 <= k < retained.len() implies retained_as_read(
        after,
        world.calls.len() + 1 + k,
        plan.states[k],
        #[trigger] retained[k],
    ) by {
        assert(retained_as_read(b.0, a.0.calls.len() + k - 0, plan.states[k], retained[k]));
        let at = world.calls.len() + 1 + k;
        assert(after.calls[at] == b.0.calls[at]);
    }
}

/// The intent that a rollback keeps of a group: it ran, or was at rest.
pub open spec fn intent_kept(state: PlacementGroupState, kept: PlacementGroupState) -> bool {
    match state {
        PlacementGroupState::Running => kept == PlacementGroupState::Running,
        PlacementGroupState::Staged => kept == PlacementGroupState::Stopped,
        PlacementGroupState::Stopped => kept == PlacementGroupState::Stopped,
        _ => false,
    }
}

/// What a rollback records of one pair: a group on the predecessor's nodes with its candidate, and
/// the identity and intent of the current group.
pub open spec fn records_pair(
    pair: RollbackPairView,
    group: crate::node_model_contract::NodeModelInstallGroupView,
    state: InitialGroupState,
) -> bool {
    &&& group.node_ids.to_multiset() == node_bag(pair.previous.placements)
    &&& group.explicit_candidate_id == Some(pair.previous.group.runtime.candidate_id)
    &&& state.placement_group_id == pair.current.group.placement_group_id
    &&& intent_kept(pair.current.group.state, state.state)
}

/// One receipt says that an installation of a predecessor is reused.
pub open spec fn reuses(
    receipt: NodeModelRuntimeReceiptView,
    pairs: Seq<RollbackPairView>,
    i: int,
    p: int,
) -> bool {
    let previous = pairs[i].previous;
    &&& receipt.group_index == i
    &&& receipt.node_id == previous.placements[p].node_id
    &&& receipt.candidate_id == previous.group.runtime.candidate_id
    &&& receipt.installation_id == Some(previous.placements[p].runtime_installation_id)
    &&& receipt.disposition == NodeModelRuntimeDisposition::Reused
}

/// One receipt says that some assignment of the first predecessors is reused.
pub open spec fn reuses_some(
    receipt: NodeModelRuntimeReceiptView,
    pairs: Seq<RollbackPairView>,
    count: int,
) -> bool {
    exists|i: int, p: int|
        0 <= i < count && 0 <= p < pairs[i].previous.placements.len() && #[trigger] reuses(
            receipt,
            pairs,
            i,
            p,
        )
}

/// Some receipt says that an assignment of a predecessor is reused.
pub open spec fn is_reused(
    receipts: Seq<NodeModelRuntimeReceiptView>,
    pairs: Seq<RollbackPairView>,
    i: int,
    p: int,
) -> bool {
    exists|r: int| 0 <= r < receipts.len() && reuses(#[trigger] receipts[r], pairs, i, p)
}

/// The receipts of a rollback: each assignment of the first predecessors has one, and there is no
/// other.
pub open spec fn receipts_reuse(
    receipts: Seq<NodeModelRuntimeReceiptView>,
    pairs: Seq<RollbackPairView>,
    count: int,
) -> bool {
    &&& forall|r: int|
        0 <= r < receipts.len() ==> reuses_some(#[trigger] receipts[r], pairs, count)
    &&& forall|i: int, p: int|
        0 <= i < count && 0 <= p < pairs[i].previous.placements.len() ==> #[trigger] is_reused(
            receipts,
            pairs,
            i,
            p,
        )
}

proof fn lemma_receipts_extended(
    receipts: Seq<NodeModelRuntimeReceiptView>,
    pairs: Seq<RollbackPairView>,
    at: int,
)
    requires
        0 <= at < pairs.len() <= usize::MAX,
        receipts_reuse(receipts, pairs, at),
    ensures
        receipts_reuse(receipts + reused_receipts(pairs[at].previous, at), pairs, at + 1),
{
    let added = reused_receipts(pairs[at].previous, at);
    let all = receipts + added;
    assert forall|r: int| 0 <= r < all.len() implies reuses_some(
        #[trigger] all[r],
        pairs,
        at + 1,
    ) by {
        if r < receipts.len() {
            assert(reuses_some(receipts[r], pairs, at));
            let (i, p) = choose|i: int, p: int|
                0 <= i < at && 0 <= p < pairs[i].previous.placements.len() && #[trigger] reuses(
                    receipts[r],
                    pairs,
                    i,
                    p,
                );
            assert(reuses(all[r], pairs, i, p));
        } else {
            assert(reuses(all[r], pairs, at, r - receipts.len()));
        }
    }
    assert forall|i: int, p: int|
        0 <= i < at + 1 && 0 <= p < pairs[i].previous.placements.len() implies #[trigger] is_reused(
        all,
        pairs,
        i,
        p,
    ) by {
        if i < at {
            assert(is_reused(receipts, pairs, i, p));
            let r = choose|r: int|
                0 <= r < receipts.len() && reuses(#[trigger] receipts[r], pairs, i, p);
            assert(all[r] == receipts[r]);
        } else {
            let r = receipts.len() + p;
            assert(all[r] == added[p]);
            assert(reuses(all[r], pairs, i, p));
        }
    }
}

proof fn lemma_receipts_sorted(
    receipts: Seq<NodeModelRuntimeReceiptView>,
    pairs: Seq<RollbackPairView>,
    count: int,
)
    requires
        receipts_reuse(receipts, pairs, count),
    ensures
        receipts_reuse(
            stable_sort(receipts, |receipt: NodeModelRuntimeReceiptView| receipt_key(receipt)),
            pairs,
            count,
        ),
{
    broadcast use vstd::seq_lib::group_to_multiset_ensures;

    let key = |receipt: NodeModelRuntimeReceiptView| receipt_key(receipt);
    let sorted = stable_sort(receipts, key);
    lemma_stable_sort(receipts, key);
    assert forall|r: int| 0 <= r < sorted.len() implies reuses_some(
        #[trigger] sorted[r],
        pairs,
        count,
    ) by {
        assert(sorted.contains(sorted[r]));
        assert(sorted.to_multiset().count(sorted[r]) > 0);
        assert(receipts.contains(sorted[r]));
        let q = choose|q: int| 0 <= q < receipts.len() && receipts[q] == sorted[r];
        assert(reuses_some(receipts[q], pairs, count));
    }
    assert forall|i: int, p: int|
        0 <= i < count && 0 <= p < pairs[i].previous.placements.len() implies #[trigger] is_reused(
        sorted,
        pairs,
        i,
        p,
    ) by {
        assert(is_reused(receipts, pairs, i, p));
        let r = choose|r: int|
            0 <= r < receipts.len() && reuses(#[trigger] receipts[r], pairs, i, p);
        assert(receipts.contains(receipts[r]));
        assert(receipts.to_multiset().count(receipts[r]) > 0);
        assert(sorted.contains(receipts[r]));
        let q = choose|q: int| 0 <= q < sorted.len() && sorted[q] == receipts[r];
        assert(reuses(sorted[q], pairs, i, p));
    }
}

proof fn pairs_are_recorded(pairs: Seq<RollbackPairView>, at: int, parts: RollbackPartsView)
    requires
        0 <= at <= pairs.len() <= usize::MAX,
        parts.groups.len() == at,
        parts.states.len() == at,
        forall|i: int|
            0 <= i < at ==> records_pair(pairs[i], parts.groups[i], #[trigger] parts.states[i]),
        receipts_reuse(parts.receipts, pairs, at),
    ensures
        pairs_recorded(pairs, at, parts) matches Ok(all) ==> {
            &&& all.groups.len() == pairs.len()
            &&& all.states.len() == pairs.len()
            &&& forall|i: int|
                0 <= i < pairs.len() ==> records_pair(
                    pairs[i],
                    all.groups[i],
                    #[trigger] all.states[i],
                )
            &&& receipts_reuse(all.receipts, pairs, pairs.len() as int)
        },
    decreases pairs.len() - at,
{
    if at < pairs.len() {
        let pair = pairs[at];
        let group = install_group(
            record_nodes(pair.previous),
            Some(pair.previous.group.runtime.candidate_id),
        );
        let state = rollback_intent(pair.current.group.state);
        if group is Ok && state is Ok {
            let nodes = assigned_nodes(pair.previous.placements);
            law_sorted_ids(nodes);
            assert(nodes =~= Seq::new(
                pair.previous.placements.len(),
                |i: int| pair.previous.placements[i].node_id,
            ));
            let more = RollbackPartsView {
                groups: parts.groups.push(group->Ok_0),
                receipts: parts.receipts + reused_receipts(pair.previous, at),
                states: parts.states.push(
                    InitialGroupState {
                        placement_group_id: pair.current.group.placement_group_id,
                        state: state->Ok_0,
                    },
                ),
            };
            lemma_receipts_extended(parts.receipts, pairs, at);
            assert forall|i: int| 0 <= i < at + 1 implies records_pair(
                pairs[i],
                more.groups[i],
                #[trigger] more.states[i],
            ) by {
                if i < at {
                    assert(records_pair(pairs[i], parts.groups[i], parts.states[i]));
                }
            }
            pairs_are_recorded(pairs, at + 1, more);
        }
    }
}

/// The journal of a new rollback records, for each pair of the plan and in order, a group on the
/// predecessor's nodes and the current group with its intent, retains the current groups as they
/// were read, and reuses exactly the predecessors' installations.
pub proof fn law_rollback_journal_records_the_pairs(
    world: NodeModelWorld,
    identity: NodeModelCommandIdentityView,
    plan: RollbackPlanView,
    journal: NodeModelJournalView,
)
    requires
        commits(world, rollback_prepared(world, identity, plan).0, journal),
        plan.pairs.len() <= usize::MAX,
    ensures
        begins(
            journal,
            identity,
            NodeModelAction::Rollback,
            plan.service.service_id,
            plan.service.logical_model,
        ),
        journal.rollback_target_id == plan.target_id,
        journal.install_groups.len() == plan.pairs.len(),
        journal.initial_group_states.len() == plan.pairs.len(),
        journal.planned_group_ids.len() == plan.pairs.len(),
        journal.placement_group_ids.len() == 0,
        forall|i: int|
            0 <= i < plan.pairs.len() ==> records_pair(
                plan.pairs[i],
                journal.install_groups[i],
                #[trigger] journal.initial_group_states[i],
            ),
        retains_as_read(
            rollback_prepared(world, identity, plan).0,
            world.calls.len(),
            journal,
        ),
        receipts_reuse(journal.runtime_receipts, plan.pairs, plan.pairs.len() as int),
{
    let after = rollback_prepared(world, identity, plan).0;
    let op = identity.operation_id;
    let pairs = plan.pairs;
    pairs_are_recorded(pairs, 0, no_parts());
    let parts = pairs_recorded(pairs, 0, no_parts())->Ok_0;
    groups_are_retained(world, op, parts.states, 0, Seq::empty());
    let b = groups_retained(world, op, parts.states, 0, Seq::empty());
    assert(b.1 is Ok) by {
        if b.1 is Err && after == b.0 {
            assert(after.calls.last() is GroupRecord);
        }
    }
    let retained = b.1->Ok_0;
    assert forall|k: int| 0 <= k < retained.len() implies retained_as_read(
        after,
        world.calls.len() + k,
        parts.states[k],
        #[trigger] retained[k],
    ) by {
        assert(retained_as_read(b.0, world.calls.len() + k - 0, parts.states[k], retained[k]));
        let at = world.calls.len() + k;
        assert(after.calls[at] == b.0.calls[at]);
    }
    lemma_receipts_sorted(parts.receipts, pairs, pairs.len() as int);
}

// ---------------------------------------------------------------------------
// Groups that a rollback has nothing to do with
// ---------------------------------------------------------------------------

/// Every group that is read is read under its own identity.
pub open spec fn reads_are_named(world: NodeModelWorld, from: nat) -> bool {
    forall|at: int|
        from <= at < world.calls.len() ==> match #[trigger] world.calls[at] {
            NodeModelCall::GroupRecord { placement_group_id } => (world.script.group_record)(
                at as nat,
            ) matches Ok(Some(record)) ==> record.group.placement_group_id == placement_group_id,
            _ => true,
        }
}

/// A journal is of one command: it replaces the same groups, and has committed none but planned
/// ones.
pub open spec fn of_command(
    journal: NodeModelJournalView,
    created: NodeModelJournalView,
) -> bool {
    &&& journal.action == created.action
    &&& journal.service_id == created.service_id
    &&& journal.retained_groups == created.retained_groups
    &&& journal.planned_group_ids == created.planned_group_ids
    &&& journal.install_groups == created.install_groups
    &&& forall|i: int|
        0 <= i < journal.placement_group_ids.len() ==> created.planned_group_ids.contains(
            #[trigger] journal.placement_group_ids[i],
        )
}

/// A rollback of one target leaves the service's groups of other targets alone: such a group is in
/// no pair of the plan and not among those that the journal replaces, and neither executing the
/// command nor reversing it stages, starts, stops, recovers, removes, attaches or detaches it.
pub proof fn law_rollback_spares_other_targets(
    world: NodeModelWorld,
    service_id: ModelServiceId,
    target: Seq<char>,
    plan: RollbackPlanView,
    k: int,
    planned: NodeModelWorld,
    identity: NodeModelCommandIdentityView,
    created: NodeModelJournalView,
    start: NodeModelWorld,
    journal: VersionedNodeModelJournalView,
)
    requires
        rollback_planned(world, service_id, Some(target)).1 == Ok::<
            RollbackPlanView,
            NodeModelError,
        >(plan),
        reads_are_named(rollback_planned(world, service_id, Some(target)).0, world.calls.len()),
        plan.service.placement_group_ids.no_duplicates(),
        plan.pairs.len() <= usize::MAX,
        0 <= k < plan.service.placement_group_ids.len(),
        (world.script.group_record)((world.calls.len() + 1 + k) as nat) matches Ok(Some(record))
            && record.group.runtime.target_id != target,
        commits(planned, rollback_prepared(planned, identity, plan).0, created),
        !created.planned_group_ids.contains(plan.service.placement_group_ids[k]),
        !restorations(created).contains(plan.service.placement_group_ids[k]),
        of_command(journal.journal, created),
    ensures
        ({
            let group = plan.service.placement_group_ids[k];
            &&& forall|i: int|
                0 <= i < plan.pairs.len() ==> (
                #[trigger] plan.pairs[i]).current.group.placement_group_id != group
            &&& !replaced_groups(created).contains(group)
            &&& store_keeps(executed(start, journal).0) ==> only(
                start,
                executed(start, journal).0,
                elsewhere(group),
            )
            &&& only(start, compensated(start, journal.journal).0, elsewhere(group))
        }),
{
    let group = plan.service.placement_group_ids[k];
    let groups = plan.service.placement_group_ids;
    let seen = rollback_planned(world, service_id, Some(target)).0;
    let from = world.calls.len();
    law_rollback_plan_stays_in_its_target(world, service_id, Some(target));
    law_preview_changes_nothing(world, service_id, Some(target));
    let (records, positions) = choose|records: Seq<PlacementRecordView>, positions: Seq<int>|
        #[trigger] rollback_chooses(
            seen,
            from,
            service_id,
            Some(target),
            plan,
            records,
            positions,
        );
    assert(reads_record(seen, from + 1 + k, groups[k], records[k]));
    assert(!positions.contains(k));
    assert forall|i: int| 0 <= i < plan.pairs.len() implies (
    #[trigger] plan.pairs[i]).current.group.placement_group_id != group by {
        let at = positions[i];
        assert(plan.pairs[i].current == records[at]);
        assert(reads_record(seen, from + 1 + at, groups[at], records[at]));
        assert(seen.calls[from + 1 + at] == (NodeModelCall::GroupRecord {
            placement_group_id: groups[at],
        }));
        assert(positions.contains(at));
        assert(groups[at] != groups[k]);
    }
    law_rollback_journal_records_the_pairs(planned, identity, plan, created);
    assert(!replaced_groups(created).contains(group)) by {
        if replaced_groups(created).contains(group) {
            let i = choose|i: int|
                0 <= i < replaced_groups(created).len() && replaced_groups(created)[i] == group;
            assert(created.retained_groups[i].source_group_id == group);
            assert(records_pair(
                plan.pairs[i],
                created.install_groups[i],
                created.initial_group_states[i],
            ));
            assert(plan.pairs[i].current.group.placement_group_id == group);
        }
    }
    let model = journal.journal;
    assert(replaced_groups(model) == replaced_groups(created));
    assert(restorations(model) == restorations(created));
    assert(!model.placement_group_ids.contains(group)) by {
        if model.placement_group_ids.contains(group) {
            let i = choose|i: int|
                0 <= i < model.placement_group_ids.len() && model.placement_group_ids[i] == group;
            assert(created.planned_group_ids.contains(model.placement_group_ids[i]));
        }
    }
    law_replacement_reversal_spares_other_groups(start, model, group);
    if store_keeps(executed(start, journal).0) {
        law_rollback_touches_only_its_groups(start, journal, group);
    }
}

/// Executing a rollback changes no group but those that it replaces and those that it planned or
/// committed.
pub proof fn law_rollback_touches_only_its_groups(
    world: NodeModelWorld,
    journal: VersionedNodeModelJournalView,
    group: PlacementGroupId,
)
    requires
        journal.journal.action == NodeModelAction::Rollback,
        journal.journal.install_groups.len() <= usize::MAX,
        store_keeps(executed(world, journal).0),
        !journal.journal.placement_group_ids.contains(group),
        !journal.journal.planned_group_ids.contains(group),
        !replaced_groups(journal.journal).contains(group),
    ensures
        only(world, executed(world, journal).0, elsewhere(group)),
{
    let (after, done) = executed(world, journal);
    let wide = elsewhere(group);
    every_rollback_read(world, journal.journal, 0);
    let a = rollbacks_read(world, journal.journal, 0);
    lemma_widened(world, a.0, |call: NodeModelCall| call is Installation, wide);
    if a.1 is Ok {
        law_replacement_keeps_the_intent(a.0, journal);
        let was_stopped = first_intent(after, a.0.calls.len(), journal.journal.service_id) == Some(
            ModelServiceDesiredState::Stopped,
        );
        lemma_widened(a.0, after, replacing(journal.journal, was_stopped), wide);
        join(world, a.0, after, wide);
    }
}

} // verus!
