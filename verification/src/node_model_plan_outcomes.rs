//! What the plans of model commands choose, as the reads behind them show it.

use vstd::prelude::*;

use crate::entity::{
    ModelServiceView, PlacementAssignment, PlacementGroupState, PlacementRecordView,
    RuntimeInstallationView,
};
use crate::identity::{law_sorted_ids, sorted_ids, ModelServiceId, NodeId, PlacementGroupId};
use crate::node_model_contract::{
    InitialGroupState, NodeModelAction, NodeModelError, NodeModelJournalState,
    NodeModelJournalView, NodeModelRemovalSelectionView, NodeModelRemoveRequestView,
    VersionedNodeModelJournalView,
};
use crate::node_model_groups::{from_placement, from_runtime, redacted, required};
use crate::node_model_laws::{join, only};
use crate::node_model_planning::{
    groups_read, in_target, matched_nodes, no_removal, pairs_found, position_from,
    predecessor_found, previous_checked, previous_read, record_selected, removal_selected,
    remove_prepared, replaced_groups, replacement_history, retained_source, rollback_planned,
    RemovalView, RollbackPairView, RollbackPlanView,
};
use crate::node_model_rules::{assigned_nodes, rollback_pair_valid};
use crate::node_model_traces::any_call;
use crate::node_model_world::{NodeModelCall, NodeModelWorld};
use crate::sequence::{key_le, lemma_selected_members, lemma_stable_sort, selected};

verus! {

// ---------------------------------------------------------------------------
// Choosing from a list
// ---------------------------------------------------------------------------

/// The positions of a choice: they increase, stay within the list, and hold exactly the elements
/// that are wanted.
pub open spec fn picks<V>(
    all: Seq<V>,
    chosen: Seq<V>,
    positions: Seq<int>,
    wanted: spec_fn(V) -> bool,
) -> bool {
    &&& positions.len() == chosen.len()
    &&& forall|i: int|
        0 <= i < positions.len() ==> 0 <= #[trigger] positions[i] < all.len() && chosen[i]
            == all[positions[i]] && wanted(all[positions[i]])
    &&& forall|i: int, j: int|
        0 <= i < j < positions.len() ==> #[trigger] positions[i] < #[trigger] positions[j]
    &&& forall|k: int|
        0 <= k < all.len() && wanted(#[trigger] all[k]) ==> positions.contains(k)
}

pub(crate) proof fn lemma_selected_picks<V>(all: Seq<V>, keep: spec_fn(V) -> bool) -> (positions: Seq<int>)
    ensures
        picks(all, selected(all, keep), positions, keep),
    decreases all.len(),
{
    if all.len() == 0 {
        Seq::empty()
    } else {
        let shorter = all.drop_last();
        let last = all.len() - 1;
        let inner = lemma_selected_picks(shorter, keep);
        let chosen = selected(all, keep);
        let positions = if keep(all[last]) {
            inner.push(last)
        } else {
            inner
        };
        assert forall|i: int| 0 <= i < positions.len() implies 0 <= #[trigger] positions[i]
            < all.len() && chosen[i] == all[positions[i]] && keep(all[positions[i]]) by {
            if i < inner.len() {
                assert(positions[i] == inner[i]);
                assert(shorter[inner[i]] == all[inner[i]]);
            }
        }
        assert forall|i: int, j: int| 0 <= i < j < positions.len() implies
            #[trigger] positions[i] < #[trigger] positions[j] by {
            assert(positions[i] == inner[i]);
            if j < inner.len() {
                assert(positions[j] == inner[j]);
            }
        }
        assert forall|k: int| 0 <= k < all.len() && keep(
            #[trigger] all[k],
        ) implies positions.contains(k) by {
            if k < last {
                assert(shorter[k] == all[k]);
                assert(inner.contains(k));
                let i = choose|i: int| 0 <= i < inner.len() && inner[i] == k;
                assert(positions[i] == k);
            } else {
                assert(positions[inner.len() as int] == k);
            }
        }
        positions
    }
}

// ---------------------------------------------------------------------------
// Rollback plans
// ---------------------------------------------------------------------------

/// One call reads a group, and gets the record.
pub open spec fn reads_record(
    world: NodeModelWorld,
    at: int,
    group: PlacementGroupId,
    record: PlacementRecordView,
) -> bool {
    &&& world.calls[at] == (NodeModelCall::GroupRecord { placement_group_id: group })
    &&& (world.script.group_record)(at as nat) == Ok::<
        Option<PlacementRecordView>,
        crate::entity::PlacementError,
    >(Some(record))
}

proof fn groups_are_read(
    world: NodeModelWorld,
    groups: Seq<PlacementGroupId>,
    at: int,
    records: Seq<PlacementRecordView>,
)
    requires
        0 <= at <= groups.len(),
        records.len() == at,
    ensures
        ({
            let (after, read) = groups_read(world, groups, at, records);
            &&& only(world, after, any_call())
            &&& read matches Ok(read) ==> {
                &&& read.len() == groups.len()
                &&& records =~= read.take(at)
                &&& after.calls.len() == world.calls.len() + groups.len() - at
                &&& forall|k: int|
                    at <= k < groups.len() ==> reads_record(
                        after,
                        world.calls.len() + k - at,
                        groups[k],
                        #[trigger] read[k],
                    )
            }
        }),
    decreases groups.len() - at,
{
    let (after, read) = groups_read(world, groups, at, records);
    if at < groups.len() {
        let a = required(from_placement(world.group_record(groups[at])));
        if let Ok(record) = a.1 {
            let more = records.push(record);
            groups_are_read(a.0, groups, at + 1, more);
            join(world, a.0, after, any_call());
            if let Ok(read) = read {
                let first = world.calls.len() as int;
                assert(after.calls[first] == a.0.calls[first]);
                assert(read.take(at + 1)[at] == record);
                assert(records =~= read.take(at)) by {
                    assert forall|i: int| 0 <= i < at implies records[i] == read[i] by {
                        assert(more[i] == read.take(at + 1)[i]);
                    }
                }
                assert forall|k: int| at <= k < groups.len() implies reads_record(
                    after,
                    world.calls.len() + k - at,
                    groups[k],
                    #[trigger] read[k],
                ) by {
                    if k > at {
                        assert(a.0.calls.len() + k - (at + 1) == world.calls.len() + k - at);
                    }
                }
            }
        }
    }
}

/// The nodes of one list of assignments, whatever their order.
pub open spec fn node_bag(placements: Seq<PlacementAssignment>) -> vstd::multiset::Multiset<
    NodeId,
> {
    Seq::new(placements.len(), |i: int| placements[i].node_id).to_multiset()
}

/// A removed group that ran another version of the same candidate for the same service and target
/// on the same nodes as a current one.
pub open spec fn precedes(previous: PlacementRecordView, current: PlacementRecordView) -> bool {
    &&& previous.group.service_id == current.group.service_id
    &&& previous.group.state == PlacementGroupState::Removed
    &&& current.group.state != PlacementGroupState::Removed
    &&& previous.group.runtime.candidate_id == current.group.runtime.candidate_id
    &&& previous.group.runtime.target_id == current.group.runtime.target_id
    &&& previous.group.runtime.version != current.group.runtime.version
    &&& previous.group.runtime.source != current.group.runtime.source
    &&& node_bag(previous.placements) == node_bag(current.placements)
}

proof fn lemma_sorted_nodes_unique(left: Seq<NodeId>, right: Seq<NodeId>)
    ensures
        left.to_multiset() == right.to_multiset() <==> sorted_ids(left) == sorted_ids(right),
{
    law_sorted_ids(left);
    law_sorted_ids(right);
    if left.to_multiset() == right.to_multiset() {
        let at_most = |a: NodeId, b: NodeId| a.value <= b.value;
        let key = |id: NodeId| <NodeId as crate::sequence::Keyed>::key(id);
        lemma_stable_sort(left, key);
        lemma_stable_sort(right, key);
        assert forall|a: NodeId, b: NodeId| #[trigger] at_most(a, b) && #[trigger] at_most(
            b,
            a,
        ) implies a == b by {
            assert(a.kind == b.kind);
        }
        let x = sorted_ids(left);
        let y = sorted_ids(right);
        assert forall|i: int, j: int| 0 <= i < j < x.len() implies #[trigger] at_most(
            x[i],
            x[j],
        ) by {
            assert(key_le(key(x[i]), key(x[j])));
        }
        assert forall|i: int, j: int| 0 <= i < j < y.len() implies #[trigger] at_most(
            y[i],
            y[j],
        ) by {
            assert(key_le(key(y[i]), key(y[j])));
        }
        vstd::seq_lib::lemma_sorted_unique(x, y, at_most);
    }
}

proof fn lemma_pair_valid(current: PlacementRecordView, previous: PlacementRecordView)
    ensures
        rollback_pair_valid(current, previous) <==> precedes(previous, current),
{
    lemma_sorted_nodes_unique(
        assigned_nodes(current.placements),
        assigned_nodes(previous.placements),
    );
    law_sorted_ids(assigned_nodes(current.placements));
    law_sorted_ids(assigned_nodes(previous.placements));
    assert(assigned_nodes(current.placements) =~= Seq::new(
        current.placements.len(),
        |i: int| current.placements[i].node_id,
    ));
    assert(assigned_nodes(previous.placements) =~= Seq::new(
        previous.placements.len(),
        |i: int| previous.placements[i].node_id,
    ));
}

/// A journal retains a source for a group: at the group's first position among those that it
/// committed.
pub open spec fn retains(
    journal: NodeModelJournalView,
    group: PlacementGroupId,
    source: PlacementGroupId,
) -> bool {
    exists|p: int|
        {
            &&& 0 <= p < journal.placement_group_ids.len()
            &&& p < journal.retained_groups.len()
            &&& (#[trigger] journal.placement_group_ids[p]) == group
            &&& journal.retained_groups[p].source_group_id == source
            &&& forall|q: int| 0 <= q < p ==> journal.placement_group_ids[q] != group
        }
}

proof fn lemma_position(groups: Seq<PlacementGroupId>, group: PlacementGroupId, at: int)
    requires
        0 <= at <= groups.len(),
        forall|q: int| 0 <= q < at ==> groups[q] != group,
    ensures
        match position_from(groups, group, at) {
            Some(p) => at <= p < groups.len() && groups[p] == group && forall|q: int|
                0 <= q < p ==> groups[q] != group,
            None => !groups.contains(group),
        },
    decreases groups.len() - at,
{
    if at < groups.len() && groups[at] != group {
        lemma_position(groups, group, at + 1);
    }
}

proof fn lemma_retains(journal: NodeModelJournalView, group: PlacementGroupId)
    ensures
        forall|source: PlacementGroupId| #[trigger]
            retains(journal, group, source) <==> retained_source(journal, group) == Some(source),
{
    lemma_position(journal.placement_group_ids, group, 0);
    assert forall|source: PlacementGroupId| #[trigger]
        retains(journal, group, source) <==> retained_source(journal, group) == Some(source) by {
        if retains(journal, group, source) {
            let p = choose|p: int|
                {
                    &&& 0 <= p < journal.placement_group_ids.len()
                    &&& p < journal.retained_groups.len()
                    &&& (#[trigger] journal.placement_group_ids[p]) == group
                    &&& journal.retained_groups[p].source_group_id == source
                    &&& forall|q: int| 0 <= q < p ==> journal.placement_group_ids[q] != group
                };
            assert(journal.placement_group_ids.contains(group));
            let found = position_from(journal.placement_group_ids, group, 0)->Some_0;
            assert(journal.placement_group_ids[found] == group);
            assert(found == p);
        }
        if retained_source(journal, group) == Some(source) {
            let p = position_from(journal.placement_group_ids, group, 0)->Some_0;
            assert(journal.placement_group_ids[p] == group);
        }
    }
}

/// A journal that replaced groups of the service: an update or rollback of it that succeeded.
pub open spec fn replacement_of(
    journal: NodeModelJournalView,
    service: ModelServiceId,
) -> bool {
    &&& journal.service_id == service
    &&& journal.state == NodeModelJournalState::Succeeded
    &&& journal.action == NodeModelAction::Update || journal.action == NodeModelAction::Rollback
}

/// One journal comes after another: it was changed later, or at the same time with the greater
/// identity.
pub open spec fn newer(left: NodeModelJournalView, right: NodeModelJournalView) -> bool {
    ||| left.updated_at.value > right.updated_at.value
    ||| left.updated_at.value == right.updated_at.value && left.operation_id.value
        > right.operation_id.value
}

/// Between two positions a group is read, and what comes back is not a predecessor of the current
/// group.
pub open spec fn ruled_out(
    world: NodeModelWorld,
    from: nat,
    source: PlacementGroupId,
    current: PlacementRecordView,
) -> bool {
    exists|at: int|
        from <= at < world.calls.len() && #[trigger] world.calls[at] == (
        NodeModelCall::GroupRecord { placement_group_id: source }) && ((
        world.script.group_record)(at as nat) matches Ok(Some(record)) ==> !precedes(
            record,
            current,
        ))
}

/// Between two positions the previous record is read for the source of the journal, and no source
/// of a newer journal gives a predecessor.
pub open spec fn found_through(
    world: NodeModelWorld,
    from: nat,
    journals: Seq<VersionedNodeModelJournalView>,
    service: ModelServiceId,
    pair: RollbackPairView,
    j: int,
    source: PlacementGroupId,
) -> bool {
    let group = pair.current.group.placement_group_id;
    &&& 0 <= j < journals.len()
    &&& replacement_of(journals[j].journal, service)
    &&& retains(journals[j].journal, group, source)
    &&& exists|at: int|
        from <= at < world.calls.len() && #[trigger] reads_record(world, at, source, pair.previous)
    &&& forall|n: int, other: PlacementGroupId|
        0 <= n < journals.len() && replacement_of(journals[n].journal, service) && newer(
            journals[n].journal,
            journals[j].journal,
        ) && #[trigger] retains(journals[n].journal, group, other) ==> ruled_out(
            world,
            from,
            other,
            pair.current,
        )
}

proof fn carry_ruled_out(
    earlier: NodeModelWorld,
    later: NodeModelWorld,
    late: nat,
    early: nat,
    source: PlacementGroupId,
    current: PlacementRecordView,
)
    requires
        ruled_out(earlier, late, source, current),
        only(earlier, later, any_call()),
        early <= late,
    ensures
        ruled_out(later, early, source, current),
{
    let at = choose|at: int|
        late <= at < earlier.calls.len() && #[trigger] earlier.calls[at] == (
        NodeModelCall::GroupRecord { placement_group_id: source }) && ((
        earlier.script.group_record)(at as nat) matches Ok(Some(record)) ==> !precedes(
            record,
            current,
        ));
    assert(later.calls[at] == earlier.calls[at]);
}

/// The first journal of a history, from one position on, whose source gives the previous record;
/// every earlier one that retains a source is ruled out.
pub open spec fn history_hit(
    world: NodeModelWorld,
    from: nat,
    history: Seq<VersionedNodeModelJournalView>,
    at: int,
    hit: int,
    source: PlacementGroupId,
    current: PlacementRecordView,
    previous: PlacementRecordView,
) -> bool {
    let group = current.group.placement_group_id;
    &&& at <= hit < history.len()
    &&& retained_source(history[hit].journal, group) == Some(source)
    &&& exists|i: int|
        from <= i < world.calls.len() && #[trigger] reads_record(world, i, source, previous)
    &&& forall|n: int|
        at <= n < hit ==> (retained_source(
            (#[trigger] history[n]).journal,
            group,
        ) matches Some(other) ==> ruled_out(world, from, other, current))
}

proof fn predecessor_is_found(
    world: NodeModelWorld,
    current: PlacementRecordView,
    history: Seq<VersionedNodeModelJournalView>,
    at: int,
)
    requires
        0 <= at <= history.len(),
    ensures
        ({
            let (after, found) = predecessor_found(world, current, history, at);
            &&& only(world, after, any_call())
            &&& found matches Some(previous) ==> rollback_pair_valid(current, previous) && exists|
                hit: int,
                source: PlacementGroupId,
            | #[trigger]
                history_hit(
                    after,
                    world.calls.len(),
                    history,
                    at,
                    hit,
                    source,
                    current,
                    previous,
                )
        }),
    decreases history.len() - at,
{
    let (after, found) = predecessor_found(world, current, history, at);
    let group = current.group.placement_group_id;
    let from = world.calls.len();
    if at < history.len() {
        match retained_source(history[at].journal, group) {
            None => {
                predecessor_is_found(world, current, history, at + 1);
                if let Some(previous) = found {
                    let (hit, source) = choose|hit: int, source: PlacementGroupId| #[trigger]
                        history_hit(after, from, history, at + 1, hit, source, current, previous);
                    assert(history_hit(
                        after,
                        from,
                        history,
                        at,
                        hit,
                        source,
                        current,
                        previous,
                    ));
                }
            },
            Some(source) => {
                let (next, record) = world.group_record(source);
                let hits = record matches Ok(Some(previous)) && rollback_pair_valid(
                    current,
                    previous,
                );
                if hits {
                    let previous = record->Ok_0->Some_0;
                    assert(reads_record(after, from as int, source, previous));
                    assert(history_hit(after, from, history, at, at, source, current, previous));
                } else {
                    predecessor_is_found(next, current, history, at + 1);
                    join(world, next, after, any_call());
                    if let Some(previous) = found {
                        let late = next.calls.len();
                        let (hit, other) = choose|hit: int, other: PlacementGroupId| #[trigger]
                            history_hit(
                                after,
                                late,
                                history,
                                at + 1,
                                hit,
                                other,
                                current,
                                previous,
                            );
                        assert(after.calls[from as int] == next.calls[from as int]);
                        if let Ok(Some(read)) = record {
                            lemma_pair_valid(current, read);
                        }
                        assert(ruled_out(after, from, source, current));
                        assert(only(after, after, any_call()));
                        assert forall|n: int| at <= n < hit implies (retained_source(
                            (#[trigger] history[n]).journal,
                            group,
                        ) matches Some(third) ==> ruled_out(after, from, third, current)) by {
                            if n > at {
                                if let Some(third) = retained_source(history[n].journal, group) {
                                    carry_ruled_out(after, after, late, from, third, current);
                                }
                            }
                        }
                        let i = choose|i: int|
                            late <= i < after.calls.len() && #[trigger] reads_record(
                                after,
                                i,
                                other,
                                previous,
                            );
                        assert(reads_record(after, i, other, previous));
                        assert(history_hit(
                            after,
                            from,
                            history,
                            at,
                            hit,
                            other,
                            current,
                            previous,
                        ));
                    }
                }
            },
        }
    }
}

/// A pair of a rollback plan: its previous group precedes the current one, and is found through the
/// newest journal that retains a predecessor.
pub open spec fn pair_is_latest(
    world: NodeModelWorld,
    from: nat,
    journals: Seq<VersionedNodeModelJournalView>,
    service: ModelServiceId,
    pair: RollbackPairView,
) -> bool {
    &&& precedes(pair.previous, pair.current)
    &&& exists|j: int, source: PlacementGroupId| #[trigger]
        found_through(world, from, journals, service, pair, j, source)
}

proof fn lemma_history(
    journals: Seq<VersionedNodeModelJournalView>,
    service: ModelServiceId,
)
    ensures
        ({
            let history = replacement_history(journals, service);
            &&& forall|h: int|
                0 <= h < history.len() ==> journals.contains(#[trigger] history[h])
                    && replacement_of(history[h].journal, service)
            &&& forall|n: int|
                0 <= n < journals.len() && replacement_of(
                    (#[trigger] journals[n]).journal,
                    service,
                ) ==> history.contains(journals[n])
            &&& forall|a: int, b: int|
                #![trigger history[a], history[b]]
                0 <= a < b < history.len() ==> !newer(history[b].journal, history[a].journal)
        }),
{
    broadcast use vstd::seq_lib::group_to_multiset_ensures;

    let keep = |journal: VersionedNodeModelJournalView| replaced_groups(journal, service);
    let key = |journal: VersionedNodeModelJournalView|
        <crate::node_model_contract::VersionedNodeModelJournal as crate::sequence::Keyed>::key(
            journal,
        );
    let chosen = selected(journals, keep);
    let history = replacement_history(journals, service);
    lemma_selected_members(journals, keep);
    lemma_stable_sort(chosen, key);
    let positions = lemma_selected_picks(journals, keep);
    assert forall|h: int| 0 <= h < history.len() implies journals.contains(#[trigger] history[h])
        && replacement_of(history[h].journal, service) by {
        assert(history.contains(history[h]));
        assert(history.to_multiset().contains(history[h]));
        assert(chosen.to_multiset().contains(history[h]));
        assert(chosen.contains(history[h]));
        let k = choose|k: int| 0 <= k < chosen.len() && chosen[k] == history[h];
        assert(keep(chosen[k]));
    }
    assert forall|n: int|
        0 <= n < journals.len() && replacement_of(
            (#[trigger] journals[n]).journal,
            service,
        ) implies history.contains(journals[n]) by {
        assert(keep(journals[n]));
        assert(positions.contains(n));
        let i = choose|i: int| 0 <= i < positions.len() && positions[i] == n;
        assert(chosen[i] == journals[n]);
        assert(chosen.contains(journals[n]));
        assert(chosen.to_multiset().contains(journals[n]));
        assert(history.to_multiset().contains(journals[n]));
    }
    assert forall|a: int, b: int|
        #![trigger history[a], history[b]]
        0 <= a < b < history.len() implies !newer(history[b].journal, history[a].journal) by {
        assert(key_le(key(history[a]), key(history[b])));
    }
}

proof fn lemma_pair_found(
    world: NodeModelWorld,
    from: nat,
    journals: Seq<VersionedNodeModelJournalView>,
    service: ModelServiceId,
    current: PlacementRecordView,
    previous: PlacementRecordView,
    hit: int,
    source: PlacementGroupId,
)
    requires
        history_hit(
            world,
            from,
            replacement_history(journals, service),
            0,
            hit,
            source,
            current,
            previous,
        ),
        rollback_pair_valid(current, previous),
    ensures
        pair_is_latest(world, from, journals, service, RollbackPairView { current, previous }),
{
    let history = replacement_history(journals, service);
    let group = current.group.placement_group_id;
    let pair = RollbackPairView { current, previous };
    lemma_history(journals, service);
    lemma_pair_valid(current, previous);
    assert(journals.contains(history[hit]));
    let j = choose|j: int| 0 <= j < journals.len() && journals[j] == history[hit];
    lemma_retains(journals[j].journal, group);
    assert forall|n: int, other: PlacementGroupId|
        0 <= n < journals.len() && replacement_of(journals[n].journal, service) && newer(
            journals[n].journal,
            journals[j].journal,
        ) && #[trigger] retains(journals[n].journal, group, other) implies ruled_out(
        world,
        from,
        other,
        current,
    ) by {
        assert(history.contains(journals[n]));
        let h = choose|h: int| 0 <= h < history.len() && history[h] == journals[n];
        if h > hit {
            assert(!newer(history[h].journal, history[hit].journal));
        }
        assert(h < hit);
        lemma_retains(journals[n].journal, group);
        assert(retained_source(history[h].journal, group) == Some(other));
    }
    assert(found_through(world, from, journals, service, pair, j, source));
}

proof fn frame_checked(world: NodeModelWorld, previous: PlacementRecordView)
    ensures
        only(world, previous_checked(world, previous).0, any_call()),
{
    frame_previous(world, previous, 0, Seq::empty());
}

proof fn frame_previous(
    world: NodeModelWorld,
    previous: PlacementRecordView,
    at: int,
    installations: Seq<RuntimeInstallationView>,
)
    ensures
        only(world, previous_read(world, previous, at, installations).0, any_call()),
    decreases previous.placements.len() - at,
{
    if 0 <= at < previous.placements.len() {
        let a = required(
            from_runtime(world.installation(previous.placements[at].runtime_installation_id)),
        );
        if let Ok(installation) = a.1 {
            frame_previous(a.0, previous, at + 1, installations.push(installation));
            join(
                world,
                a.0,
                previous_read(a.0, previous, at + 1, installations.push(installation)).0,
                any_call(),
            );
        }
    }
}

proof fn carry_pair(
    earlier: NodeModelWorld,
    later: NodeModelWorld,
    late: nat,
    early: nat,
    journals: Seq<VersionedNodeModelJournalView>,
    service: ModelServiceId,
    pair: RollbackPairView,
)
    requires
        pair_is_latest(earlier, late, journals, service, pair),
        only(earlier, later, any_call()),
        early <= late,
    ensures
        pair_is_latest(later, early, journals, service, pair),
{
    let (j, source) = choose|j: int, source: PlacementGroupId| #[trigger]
        found_through(earlier, late, journals, service, pair, j, source);
    let group = pair.current.group.placement_group_id;
    let at = choose|at: int|
        late <= at < earlier.calls.len() && #[trigger] reads_record(
            earlier,
            at,
            source,
            pair.previous,
        );
    assert(later.calls[at] == earlier.calls[at]);
    assert(reads_record(later, at, source, pair.previous));
    assert forall|n: int, other: PlacementGroupId|
        0 <= n < journals.len() && replacement_of(journals[n].journal, service) && newer(
            journals[n].journal,
            journals[j].journal,
        ) && #[trigger] retains(journals[n].journal, group, other) implies ruled_out(
        later,
        early,
        other,
        pair.current,
    ) by {
        carry_ruled_out(earlier, later, late, early, other, pair.current);
    }
    assert(found_through(later, early, journals, service, pair, j, source));
}

proof fn every_pair_found(
    world: NodeModelWorld,
    current: Seq<PlacementRecordView>,
    journals: Seq<VersionedNodeModelJournalView>,
    service: ModelServiceId,
    at: int,
    pairs: Seq<RollbackPairView>,
)
    requires
        0 <= at <= current.len(),
        pairs.len() == at,
    ensures
        ({
            let history = replacement_history(journals, service);
            let (after, found) = pairs_found(world, current, history, at, pairs);
            &&& only(world, after, any_call())
            &&& found matches Ok(found) ==> {
                &&& found.len() == current.len()
                &&& pairs =~= found.take(at)
                &&& forall|i: int|
                    at <= i < found.len() ==> (#[trigger] found[i]).current == current[i]
                        && pair_is_latest(after, world.calls.len(), journals, service, found[i])
            }
        }),
    decreases current.len() - at,
{
    let history = replacement_history(journals, service);
    let (after, found) = pairs_found(world, current, history, at, pairs);
    let from = world.calls.len();
    if at < current.len() {
        predecessor_is_found(world, current[at], history, 0);
        let a = predecessor_found(world, current[at], history, 0);
        if let Some(previous) = a.1 {
            frame_checked(a.0, previous);
            let b = previous_checked(a.0, previous);
            join(world, a.0, b.0, any_call());
            if b.1 is Ok {
                let pair = RollbackPairView { current: current[at], previous };
                let more = pairs.push(pair);
                every_pair_found(b.0, current, journals, service, at + 1, more);
                join(world, b.0, after, any_call());
                if let Ok(found) = found {
                    let (hit, source) = choose|hit: int, source: PlacementGroupId| #[trigger]
                        history_hit(a.0, from, history, 0, hit, source, current[at], previous);
                    lemma_pair_found(
                        a.0,
                        from,
                        journals,
                        service,
                        current[at],
                        previous,
                        hit,
                        source,
                    );
                    join(a.0, b.0, after, any_call());
                    carry_pair(a.0, after, from, from, journals, service, pair);
                    assert(found.take(at + 1)[at] == pair);
                    assert(pairs =~= found.take(at)) by {
                        assert forall|i: int| 0 <= i < at implies pairs[i] == found[i] by {
                            assert(more[i] == found.take(at + 1)[i]);
                        }
                    }
                    assert(only(after, after, any_call()));
                    assert forall|i: int| at <= i < found.len() implies (
                    #[trigger] found[i]).current == current[i] && pair_is_latest(
                        after,
                        from,
                        journals,
                        service,
                        found[i],
                    ) by {
                        if i > at {
                            carry_pair(
                                after,
                                after,
                                b.0.calls.len(),
                                from,
                                journals,
                                service,
                                found[i],
                            );
                        }
                    }
                }
            }
        }
    }
}

/// What a rollback plan holds: the service as it was read first, and then, of its groups as they
/// were read in order, exactly those with the wanted target, each paired with its latest
/// predecessor. Without a wanted target every group is paired.
pub open spec fn rollback_chooses(
    world: NodeModelWorld,
    from: nat,
    service_id: ModelServiceId,
    target_id: Option<Seq<char>>,
    plan: RollbackPlanView,
    records: Seq<PlacementRecordView>,
    positions: Seq<int>,
) -> bool {
    let groups = plan.service.placement_group_ids;
    &&& world.calls[from as int] == (NodeModelCall::Service { service_id })
    &&& (world.script.service)(from) matches Ok(read)
    &&& read.service == plan.service
    &&& plan.target_id == target_id
    &&& records.len() == groups.len()
    &&& from + 1 + groups.len() < world.calls.len()
    &&& forall|k: int|
        0 <= k < groups.len() ==> reads_record(
            world,
            from + 1 + k,
            groups[k],
            #[trigger] records[k],
        )
    &&& plan.pairs.len() > 0
    &&& positions.len() == plan.pairs.len()
    &&& forall|i: int|
        0 <= i < positions.len() ==> 0 <= #[trigger] positions[i] < groups.len()
            && plan.pairs[i].current == records[positions[i]]
    &&& forall|i: int, j: int|
        0 <= i < j < positions.len() ==> #[trigger] positions[i] < #[trigger] positions[j]
    &&& forall|k: int|
        0 <= k < groups.len() ==> (positions.contains(k) <==> (target_id matches Some(target) ==> (
        #[trigger] records[k]).group.runtime.target_id == target))
    &&& (world.script.all_journals)(from + 1 + groups.len()) matches Ok(journals)
    &&& forall|i: int|
        0 <= i < plan.pairs.len() ==> pair_is_latest(
            world,
            from,
            journals,
            service_id,
            #[trigger] plan.pairs[i],
        )
}

/// A rollback plan pairs exactly the service's groups with the wanted target, in order, each with
/// its latest predecessor; a group with another target is in no pair.
pub proof fn law_rollback_plan_stays_in_its_target(
    world: NodeModelWorld,
    service_id: ModelServiceId,
    target_id: Option<Seq<char>>,
)
    ensures
        rollback_planned(world, service_id, target_id).1 matches Ok(plan) ==> exists|
            records: Seq<PlacementRecordView>,
            positions: Seq<int>,
        | #[trigger]
            rollback_chooses(
                rollback_planned(world, service_id, target_id).0,
                world.calls.len(),
                service_id,
                target_id,
                plan,
                records,
                positions,
            ),
{
    let (after, planned) = rollback_planned(world, service_id, target_id);
    let from = world.calls.len();
    if let Ok(plan) = planned {
        let a = redacted(world.service(service_id));
        let service = a.1->Ok_0.service;
        let groups = service.placement_group_ids;
        groups_are_read(a.0, groups, 0, Seq::empty());
        let b = groups_read(a.0, groups, 0, Seq::empty());
        let records = b.1->Ok_0;
        let keep = |record: PlacementRecordView| in_target(record, target_id);
        let current = selected(records, keep);
        let positions = lemma_selected_picks(records, keep);
        let c = b.0.all_journals();
        let journals = c.1->Ok_0;
        every_pair_found(c.0, current, journals, service_id, 0, Seq::empty());
        join(b.0, c.0, after, any_call());
        join(a.0, b.0, after, any_call());
        assert(after.calls[from as int] == a.0.calls[from as int]);
        assert forall|k: int| 0 <= k < groups.len() implies reads_record(
            after,
            from + 1 + k,
            groups[k],
            #[trigger] records[k],
        ) by {
            assert(reads_record(b.0, a.0.calls.len() + k - 0, groups[k], records[k]));
            assert(after.calls[from + 1 + k] == b.0.calls[from + 1 + k]);
        }
        assert(only(after, after, any_call()));
        assert forall|i: int| 0 <= i < plan.pairs.len() implies pair_is_latest(
            after,
            from,
            journals,
            service_id,
            #[trigger] plan.pairs[i],
        ) by {
            carry_pair(
                after,
                after,
                c.0.calls.len(),
                from,
                journals,
                service_id,
                plan.pairs[i],
            );
        }
        assert forall|i: int| 0 <= i < positions.len() implies 0 <= #[trigger] positions[i]
            < groups.len() && plan.pairs[i].current == records[positions[i]] by {
            assert(plan.pairs[i].current == current[i]);
        }
        assert forall|k: int| 0 <= k < groups.len() implies (positions.contains(k) <==> (
        target_id matches Some(target) ==> (#[trigger] records[k]).group.runtime.target_id
            == target)) by {
            if positions.contains(k) {
                let i = choose|i: int| 0 <= i < positions.len() && positions[i] == k;
                assert(keep(records[positions[i]]));
            }
        }
        assert(rollback_chooses(after, from, service_id, target_id, plan, records, positions));
    }
}

// ---------------------------------------------------------------------------
// Choosing groups of a service
// ---------------------------------------------------------------------------

/// Of the first groups of a service, as they were read, exactly the wanted ones were chosen, in
/// order and with the state that they were read in.
pub open spec fn chosen_so_far(
    groups: Seq<PlacementGroupId>,
    records: Seq<PlacementRecordView>,
    chosen: Seq<PlacementGroupId>,
    states: Seq<InitialGroupState>,
    positions: Seq<int>,
    wanted: spec_fn(int) -> bool,
) -> bool {
    &&& chosen.len() == positions.len()
    &&& states.len() == positions.len()
    &&& forall|i: int|
        0 <= i < positions.len() ==> {
            &&& 0 <= #[trigger] positions[i] < records.len()
            &&& chosen[i] == groups[positions[i]]
            &&& states[i] == (InitialGroupState {
                placement_group_id: groups[positions[i]],
                state: records[positions[i]].group.state,
            })
        }
    &&& forall|i: int, j: int|
        0 <= i < j < positions.len() ==> #[trigger] positions[i] < #[trigger] positions[j]
    &&& forall|k: int|
        0 <= k < records.len() ==> (#[trigger] positions.contains(k) <==> wanted(k))
}

pub(crate) proof fn lemma_chosen_step(
    groups: Seq<PlacementGroupId>,
    records: Seq<PlacementRecordView>,
    record: PlacementRecordView,
    chosen: Seq<PlacementGroupId>,
    states: Seq<InitialGroupState>,
    positions: Seq<int>,
    wanted: spec_fn(int) -> bool,
)
    requires
        chosen_so_far(groups, records, chosen, states, positions, wanted),
        records.len() < groups.len(),
    ensures
        ({
            let at = records.len() as int;
            let more = records.push(record);
            if wanted(at) {
                chosen_so_far(
                    groups,
                    more,
                    chosen.push(groups[at]),
                    states.push(
                        InitialGroupState {
                            placement_group_id: groups[at],
                            state: record.group.state,
                        },
                    ),
                    positions.push(at),
                    wanted,
                )
            } else {
                chosen_so_far(groups, more, chosen, states, positions, wanted)
            }
        }),
{
    let at = records.len() as int;
    let more = records.push(record);
    let longer = positions.push(at);
    assert(!positions.contains(at)) by {
        if positions.contains(at) {
            let i = choose|i: int| 0 <= i < positions.len() && positions[i] == at;
            assert(positions[i] < records.len());
        }
    }
    assert forall|k: int| 0 <= k < at implies more[k] == records[k] by {}
    if wanted(at) {
        assert forall|k: int| 0 <= k < more.len() implies (#[trigger] longer.contains(k) <==> wanted(
            k,
        )) by {
            if k < at {
                assert(positions.contains(k) <==> wanted(k));
                if positions.contains(k) {
                    let i = choose|i: int| 0 <= i < positions.len() && positions[i] == k;
                    assert(longer[i] == k);
                }
                if longer.contains(k) {
                    let i = choose|i: int| 0 <= i < longer.len() && longer[i] == k;
                    assert(positions[i] == k);
                }
            } else {
                assert(longer[positions.len() as int] == at);
            }
        }
    }
}

// ---------------------------------------------------------------------------
// Removal plans
// ---------------------------------------------------------------------------

/// A selection means a group: it means everything, or a node that the group runs on.
pub open spec fn means(
    selection: NodeModelRemovalSelectionView,
    record: PlacementRecordView,
) -> bool {
    match selection {
        NodeModelRemovalSelectionView::All => true,
        NodeModelRemovalSelectionView::Nodes(nodes) => exists|p: int|
            0 <= p < record.placements.len() && nodes.contains(
                (#[trigger] record.placements[p]).node_id,
            ),
    }
}

/// Some group runs on the node.
pub open spec fn runs_on(records: Seq<PlacementRecordView>, node_id: NodeId) -> bool {
    exists|k: int, p: int|
        0 <= k < records.len() && 0 <= p < records[k].placements.len() && (
        #[trigger] records[k].placements[p]).node_id == node_id
}

proof fn lemma_matched(record: PlacementRecordView, nodes: Seq<NodeId>)
    ensures
        matched_nodes(record, nodes).len() > 0 <==> means(
            NodeModelRemovalSelectionView::Nodes(nodes),
            record,
        ),
        forall|node: NodeId| #[trigger]
            matched_nodes(record, nodes).contains(node) <==> nodes.contains(node) && (exists|p: int|
                0 <= p < record.placements.len() && (#[trigger] record.placements[p]).node_id
                    == node),
{
    let all = assigned_nodes(record.placements);
    let keep = |node: NodeId| nodes.contains(node);
    let matched = matched_nodes(record, nodes);
    let positions = lemma_selected_picks(all, keep);
    assert forall|node: NodeId| #[trigger] matched.contains(node) <==> nodes.contains(node) && (
    exists|p: int|
        0 <= p < record.placements.len() && (#[trigger] record.placements[p]).node_id == node) by {
        if matched.contains(node) {
            let i = choose|i: int| 0 <= i < matched.len() && matched[i] == node;
            assert(0 <= positions[i] < all.len());
            assert(record.placements[positions[i]].node_id == node);
        }
        if nodes.contains(node) && exists|p: int|
            0 <= p < record.placements.len() && (#[trigger] record.placements[p]).node_id == node {
            let p = choose|p: int|
                0 <= p < record.placements.len() && (#[trigger] record.placements[p]).node_id
                    == node;
            assert(keep(all[p]));
            assert(positions.contains(p));
            let i = choose|i: int| 0 <= i < positions.len() && positions[i] == p;
            assert(matched[i] == node);
        }
    }
    if matched.len() > 0 {
        assert(matched.contains(matched[0]));
        let p = choose|p: int|
            0 <= p < record.placements.len() && (#[trigger] record.placements[p]).node_id
                == matched[0];
        assert(nodes.contains(record.placements[p].node_id));
    }
    if means(NodeModelRemovalSelectionView::Nodes(nodes), record) {
        let p = choose|p: int|
            0 <= p < record.placements.len() && nodes.contains(
                (#[trigger] record.placements[p]).node_id,
            );
        assert(matched.contains(record.placements[p].node_id));
    }
}

/// What a removal chose of the first groups, as they were read.
pub open spec fn removal_chooses(
    world: NodeModelWorld,
    from: nat,
    request: NodeModelRemoveRequestView,
    groups: Seq<PlacementGroupId>,
    records: Seq<PlacementRecordView>,
    positions: Seq<int>,
    removal: RemovalView,
) -> bool {
    &&& records.len() <= groups.len()
    &&& forall|k: int|
        0 <= k < records.len() ==> reads_record(world, from + k, groups[k], #[trigger] records[k])
            && records[k].group.service_id == request.service_id
    &&& chosen_so_far(
        groups,
        records,
        removal.groups,
        removal.states,
        positions,
        |k: int| means(request.selection, records[k]),
    )
    &&& request.selection matches NodeModelRemovalSelectionView::Nodes(nodes) ==> forall|
        node: NodeId,
    | #[trigger]
        removal.matched.contains(node) <==> nodes.contains(node) && runs_on(records, node)
}

proof fn lemma_removal_step(
    world: NodeModelWorld,
    later: NodeModelWorld,
    from: nat,
    request: NodeModelRemoveRequestView,
    groups: Seq<PlacementGroupId>,
    records: Seq<PlacementRecordView>,
    record: PlacementRecordView,
    positions: Seq<int>,
    removal: RemovalView,
) -> (next: Seq<int>)
    requires
        removal_chooses(world, from, request, groups, records, positions, removal),
        records.len() < groups.len(),
        only(world, later, any_call()),
        from + records.len() == world.calls.len(),
        reads_record(later, from + records.len() as int, groups[records.len() as int], record),
        record.group.service_id == request.service_id,
    ensures
        ({
            let at = records.len() as int;
            let matched = match request.selection {
                NodeModelRemovalSelectionView::All => removal.matched,
                NodeModelRemovalSelectionView::Nodes(nodes) => removal.matched + matched_nodes(
                    record,
                    nodes,
                ),
            };
            removal_chooses(
                later,
                from,
                request,
                groups,
                records.push(record),
                next,
                if record_selected(record, request.selection) {
                    RemovalView {
                        groups: removal.groups.push(groups[at]),
                        states: removal.states.push(
                            InitialGroupState {
                                placement_group_id: groups[at],
                                state: record.group.state,
                            },
                        ),
                        matched,
                    }
                } else {
                    RemovalView { matched, ..removal }
                },
            )
        }),
{
    let at = records.len() as int;
    let more = records.push(record);
    let selection = request.selection;
    let before = |k: int| means(selection, records[k]);
    let wanted = |k: int| means(selection, more[k]);
    assert forall|k: int| 0 <= k < at implies more[k] == records[k] by {}
    assert(chosen_so_far(groups, records, removal.groups, removal.states, positions, wanted)) by {
        assert forall|k: int| 0 <= k < records.len() implies (
        #[trigger] positions.contains(k) <==> wanted(k)) by {
            assert(positions.contains(k) <==> before(k));
        }
    }
    lemma_chosen_step(
        groups,
        records,
        record,
        removal.groups,
        removal.states,
        positions,
        wanted,
    );
    assert forall|k: int| 0 <= k < more.len() implies reads_record(
        later,
        from + k,
        groups[k],
        #[trigger] more[k],
    ) && more[k].group.service_id == request.service_id by {
        if k < at {
            assert(reads_record(world, from + k, groups[k], records[k]));
            assert(later.calls[from + k] == world.calls[from + k]);
        }
    }
    if let NodeModelRemovalSelectionView::Nodes(nodes) = selection {
        lemma_matched(record, nodes);
        let found = matched_nodes(record, nodes);
        let matched = removal.matched + found;
        assert forall|node: NodeId| #[trigger] matched.contains(node) <==> nodes.contains(node)
            && runs_on(more, node) by {
            if matched.contains(node) {
                let i = choose|i: int| 0 <= i < matched.len() && matched[i] == node;
                if i < removal.matched.len() {
                    assert(removal.matched[i] == node);
                    assert(removal.matched.contains(node));
                    let (k, p) = choose|k: int, p: int|
                        0 <= k < records.len() && 0 <= p < records[k].placements.len() && (
                        #[trigger] records[k].placements[p]).node_id == node;
                    assert(more[k].placements[p].node_id == node);
                } else {
                    assert(found[i - removal.matched.len()] == node);
                    assert(found.contains(node));
                    let p = choose|p: int|
                        0 <= p < record.placements.len() && (
                        #[trigger] record.placements[p]).node_id == node;
                    assert(more[at].placements[p].node_id == node);
                }
            }
            if nodes.contains(node) && runs_on(more, node) {
                let (k, p) = choose|k: int, p: int|
                    0 <= k < more.len() && 0 <= p < more[k].placements.len() && (
                    #[trigger] more[k].placements[p]).node_id == node;
                if k < at {
                    assert(records[k].placements[p].node_id == node);
                    assert(runs_on(records, node));
                    assert(removal.matched.contains(node));
                    let i = choose|i: int|
                        0 <= i < removal.matched.len() && removal.matched[i] == node;
                    assert(matched[i] == node);
                } else {
                    assert(record.placements[p].node_id == node);
                    assert(found.contains(node));
                    let i = choose|i: int| 0 <= i < found.len() && found[i] == node;
                    assert(matched[removal.matched.len() + i] == node);
                }
            }
        }
    }
    if wanted(at) {
        positions.push(at)
    } else {
        positions
    }
}

/// Every group was read, and a removal chose among them.
pub open spec fn removal_is_read(
    world: NodeModelWorld,
    from: nat,
    request: NodeModelRemoveRequestView,
    groups: Seq<PlacementGroupId>,
    removal: RemovalView,
) -> bool {
    &&& world.calls.len() == from + groups.len()
    &&& exists|records: Seq<PlacementRecordView>, positions: Seq<int>|
        records.len() == groups.len() && #[trigger] removal_chooses(
            world,
            from,
            request,
            groups,
            records,
            positions,
            removal,
        )
}

proof fn removal_is_chosen(
    world: NodeModelWorld,
    from: nat,
    request: NodeModelRemoveRequestView,
    groups: Seq<PlacementGroupId>,
    records: Seq<PlacementRecordView>,
    positions: Seq<int>,
    removal: RemovalView,
)
    requires
        removal_chooses(world, from, request, groups, records, positions, removal),
        from + records.len() == world.calls.len(),
    ensures
        ({
            let (after, chosen) = removal_selected(
                world,
                request,
                groups,
                records.len() as int,
                removal,
            );
            &&& only(world, after, any_call())
            &&& chosen matches Ok(chosen) ==> removal_is_read(after, from, request, groups, chosen)
        }),
    decreases groups.len() - records.len(),
{
    let at = records.len() as int;
    let (after, chosen) = removal_selected(world, request, groups, at, removal);
    if at < groups.len() {
        let a = required(from_placement(world.group_record(groups[at])));
        if let Ok(record) = a.1 {
            if record.group.service_id == request.service_id {
                let next = lemma_removal_step(
                    world,
                    a.0,
                    from,
                    request,
                    groups,
                    records,
                    record,
                    positions,
                    removal,
                );
                let matched = match request.selection {
                    NodeModelRemovalSelectionView::All => removal.matched,
                    NodeModelRemovalSelectionView::Nodes(nodes) => removal.matched + matched_nodes(
                        record,
                        nodes,
                    ),
                };
                let longer = if record_selected(record, request.selection) {
                    RemovalView {
                        groups: removal.groups.push(groups[at]),
                        states: removal.states.push(
                            InitialGroupState {
                                placement_group_id: groups[at],
                                state: record.group.state,
                            },
                        ),
                        matched,
                    }
                } else {
                    RemovalView { matched, ..removal }
                };
                removal_is_chosen(
                    a.0,
                    from,
                    request,
                    groups,
                    records.push(record),
                    next,
                    longer,
                );
                assert(removal_selected(world, request, groups, at, removal) == removal_selected(
                    a.0,
                    request,
                    groups,
                    at + 1,
                    longer,
                ));
                assert(at + 1 == records.push(record).len());
                join(world, a.0, after, any_call());
            }
        }
    } else {
        assert(removal_chooses(after, from, request, groups, records, positions, removal));
        assert(removal_is_read(after, from, request, groups, removal));
    }
}

/// What a removal journal records: the request's command and retention, the selected nodes, and of
/// the service's groups, as they were read, exactly those that the selection means.
pub open spec fn removal_recorded(
    world: NodeModelWorld,
    from: nat,
    request: NodeModelRemoveRequestView,
    service: ModelServiceView,
    records: Seq<PlacementRecordView>,
    positions: Seq<int>,
    journal: NodeModelJournalView,
) -> bool {
    let groups = service.placement_group_ids;
    &&& journal.action == NodeModelAction::Remove
    &&& journal.operation_id == request.identity.operation_id
    &&& journal.idempotency_key == request.identity.idempotency_key
    &&& journal.service_id == request.service_id
    &&& journal.logical_model == service.logical_model
    &&& journal.removal_runtime_retention == request.runtime_retention
    &&& journal.removal_node_ids == match request.selection {
        NodeModelRemovalSelectionView::All => Seq::empty(),
        NodeModelRemovalSelectionView::Nodes(nodes) => nodes,
    }
    &&& records.len() == groups.len()
    &&& forall|k: int|
        0 <= k < groups.len() ==> reads_record(world, from + k, groups[k], #[trigger] records[k])
    &&& chosen_so_far(
        groups,
        records,
        journal.placement_group_ids,
        journal.initial_group_states,
        positions,
        |k: int| means(request.selection, records[k]),
    )
    &&& positions.len() > 0
    &&& forall|n: int|
        0 <= n < journal.removal_node_ids.len() ==> runs_on(
            records,
            #[trigger] journal.removal_node_ids[n],
        )
}

/// A removal that is new commits a journal of exactly the groups that its selection means: every
/// group, or those with a placement on a selected node. A group without one is left out, and every
/// selected node runs some group.
pub proof fn law_removal_journal_holds_what_was_selected(
    world: NodeModelWorld,
    request: NodeModelRemoveRequestView,
    journal: NodeModelJournalView,
)
    requires
        remove_prepared(world, request).0.calls.len() > world.calls.len(),
        remove_prepared(world, request).0.calls.last() == (NodeModelCall::CreateJournal { journal }),
    ensures
        ({
            let after = remove_prepared(world, request).0;
            let from = world.calls.len();
            &&& after.calls[from as int + 1] == (NodeModelCall::Service {
                service_id: request.service_id,
            })
            &&& (world.script.service)(from + 1) matches Ok(read) && exists|
                records: Seq<PlacementRecordView>,
                positions: Seq<int>,
            | #[trigger]
                removal_recorded(
                    after,
                    from + 2,
                    request,
                    read.service,
                    records,
                    positions,
                    journal,
                )
        }),
{
    let after = remove_prepared(world, request).0;
    let from = world.calls.len();
    let a = world.read_journal(request.identity.operation_id);
    assert(a.1 == Ok::<Option<VersionedNodeModelJournalView>, NodeModelError>(None));
    let b = redacted(a.0.service(request.service_id));
    let service = b.1->Ok_0.service;
    let groups = service.placement_group_ids;
    assert(removal_chooses(
        b.0,
        b.0.calls.len(),
        request,
        groups,
        Seq::empty(),
        Seq::empty(),
        no_removal(),
    )) by {
        let wanted = |k: int| means(request.selection, Seq::<PlacementRecordView>::empty()[k]);
        assert(chosen_so_far(
            groups,
            Seq::empty(),
            no_removal().groups,
            no_removal().states,
            Seq::empty(),
            wanted,
        ));
    }
    removal_is_chosen(
        b.0,
        b.0.calls.len(),
        request,
        groups,
        Seq::empty(),
        Seq::empty(),
        no_removal(),
    );
    let c = removal_selected(b.0, request, groups, 0, no_removal());
    assert(c.1 is Ok) by {
        if c.1 is Err {
            lemma_removal_reads(b.0, request, groups, 0, no_removal());
        }
    }
    let removal = c.1->Ok_0;
    assert(removal_is_read(c.0, from + 2, request, groups, removal));
    let (records, positions) = choose|records: Seq<PlacementRecordView>, positions: Seq<int>|
        records.len() == groups.len() && #[trigger] removal_chooses(
            c.0,
            from + 2,
            request,
            groups,
            records,
            positions,
            removal,
        );
    let d = c.0.now();
    assert(after.calls.len() > c.0.calls.len()) by {
        lemma_removal_reads(b.0, request, groups, 0, no_removal());
    }
    assert(only(c.0, after, any_call()));
    join(b.0, c.0, after, any_call());
    assert(after.calls[from as int + 1] == b.0.calls[from as int + 1]);
    assert forall|k: int| 0 <= k < groups.len() implies reads_record(
        after,
        from + 2 + k,
        groups[k],
        #[trigger] records[k],
    ) by {
        assert(reads_record(c.0, from + 2 + k, groups[k], records[k]));
        assert(after.calls[from + 2 + k] == c.0.calls[from + 2 + k]);
    }
    assert(removal.groups.len() > 0);
    assert forall|n: int| 0 <= n < journal.removal_node_ids.len() implies runs_on(
        records,
        #[trigger] journal.removal_node_ids[n],
    ) by {
        assert(removal.matched.contains(journal.removal_node_ids[n]));
    }
    assert(removal_recorded(after, from + 2, request, service, records, positions, journal));
}

proof fn lemma_removal_reads(
    world: NodeModelWorld,
    request: NodeModelRemoveRequestView,
    groups: Seq<PlacementGroupId>,
    at: int,
    removal: RemovalView,
)
    ensures
        only(
            world,
            removal_selected(world, request, groups, at, removal).0,
            |call: NodeModelCall| call is GroupRecord,
        ),
    decreases groups.len() - at,
{
    let reading = |call: NodeModelCall| call is GroupRecord;
    if 0 <= at < groups.len() {
        let a = required(from_placement(world.group_record(groups[at])));
        if let Ok(record) = a.1 {
            let matched = match request.selection {
                NodeModelRemovalSelectionView::All => removal.matched,
                NodeModelRemovalSelectionView::Nodes(nodes) => removal.matched + matched_nodes(
                    record,
                    nodes,
                ),
            };
            let longer = if record_selected(record, request.selection) {
                RemovalView {
                    groups: removal.groups.push(groups[at]),
                    states: removal.states.push(
                        InitialGroupState {
                            placement_group_id: groups[at],
                            state: record.group.state,
                        },
                    ),
                    matched,
                }
            } else {
                RemovalView { matched, ..removal }
            };
            lemma_removal_reads(a.0, request, groups, at + 1, longer);
            join(
                world,
                a.0,
                removal_selected(a.0, request, groups, at + 1, longer).0,
                reading,
            );
        }
    }
}

} // verus!
