//! What the plan of an update chooses, as the reads behind it show it.

use vstd::prelude::*;

use crate::entity::{
    ModelServiceDesiredState, ModelServiceView, PlacementAssignment, PlacementGroupState,
    PlacementRecordView, RuntimeCandidateView,
};
use crate::identity::{ModelServiceId, NodeId};
use crate::node_model_contract::{install_group, InitialGroupState, NodeModelInstallGroupView};
use crate::node_model_execution::candidate_selected;
use crate::node_model_groups::{from_placement, from_runtime, redacted, required};
use crate::node_model_laws::{join, only};
use crate::node_model_placement_outcomes::selects_at;
use crate::node_model_plan_outcomes::{chosen_so_far, lemma_chosen_step, reads_record};
use crate::node_model_planning::{
    groups_compared, placements_compared, update_planned, UpdatePlanView,
};
use crate::node_model_traces::any_call;
use crate::node_model_world::{NodeModelCall, NodeModelWorld};

verus! {

/// Where the calls of one placement begin, after the one that read its group and those of the
/// placements before it.
pub open spec fn turn(start: int, p: int) -> int {
    start + 1 + 3 * p
}

/// Three calls compare one placement: its installation is read, its node observed, and a candidate
/// selected for it.
pub open spec fn compares_at(
    world: NodeModelWorld,
    at: int,
    logical_model: Seq<char>,
    explicit: Option<Seq<char>>,
    placement: PlacementAssignment,
) -> bool {
    &&& world.calls[at] == (NodeModelCall::Installation {
        installation_id: placement.runtime_installation_id,
    })
    &&& (world.script.installation)(at as nat) matches Ok(Some(_))
    &&& exists|candidate: RuntimeCandidateView| #[trigger]
        selects_at(world, at + 2, placement.node_id, logical_model, explicit, candidate)
}

/// The installation and the candidate of one comparison differ in model, runtime or artifacts.
pub open spec fn differs_at(world: NodeModelWorld, at: int) -> bool {
    &&& (world.script.installation)(at as nat) matches Ok(Some(installation))
    &&& (world.script.select_runtime)((at + 2) as nat) matches Ok(candidate)
    &&& {
        ||| installation.logical_model != candidate.logical_model
        ||| installation.runtime != candidate.runtime
        ||| installation.artifacts != candidate.artifacts
    }
}

/// Some placement of a group runs something else than the candidate that was selected for it.
pub open spec fn outdated(world: NodeModelWorld, start: int, count: int) -> bool {
    exists|p: int| 0 <= p < count && differs_at(world, #[trigger] turn(start, p))
}

proof fn placements_are_compared(
    world: NodeModelWorld,
    start: int,
    logical_model: Seq<char>,
    explicit: Option<Seq<char>>,
    placements: Seq<PlacementAssignment>,
    at: int,
    nodes: Seq<NodeId>,
    changed: bool,
)
    requires
        0 <= at <= placements.len(),
        0 <= start,
        world.calls.len() == turn(start, at),
        nodes.len() == at,
        forall|p: int| 0 <= p < at ==> #[trigger] nodes[p] == placements[p].node_id,
        changed <==> outdated(world, start, at),
    ensures
        ({
            let (after, compared) = placements_compared(
                world,
                logical_model,
                explicit,
                placements,
                at,
                nodes,
                changed,
            );
            &&& only(world, after, any_call())
            &&& compared matches Ok(compared) ==> {
                &&& after.calls.len() == turn(start, placements.len() as int)
                &&& compared.0.len() == placements.len()
                &&& forall|p: int|
                    0 <= p < placements.len() ==> #[trigger] compared.0[p]
                        == placements[p].node_id
                &&& forall|p: int|
                    at <= p < placements.len() ==> compares_at(
                        after,
                        #[trigger] turn(start, p),
                        logical_model,
                        explicit,
                        placements[p],
                    )
                &&& compared.1 <==> outdated(world, start, placements.len() as int)
            }
        }),
    decreases placements.len() - at,
{
    let (after, compared) = placements_compared(
        world,
        logical_model,
        explicit,
        placements,
        at,
        nodes,
        changed,
    );
    if at < placements.len() {
        let placement = placements[at];
        let a = required(from_runtime(world.installation(placement.runtime_installation_id)));
        let first = world.calls.len() as int;
        if let Ok(installation) = a.1 {
            let b = candidate_selected(a.0, logical_model, explicit, placement.node_id);
            if let Ok(candidate) = b.1 {
                let more = nodes.push(placement.node_id);
                let differs = !crate::node_model_rules::candidate_installed(
                    candidate.0,
                    installation,
                );
                assert(b.0.calls.len() == turn(start, at + 1));
                assert(differs <==> differs_at(world, turn(start, at)));
                assert((changed || differs) <==> outdated(b.0, start, at + 1)) by {
                    if changed {
                        let p = choose|p: int|
                            0 <= p < at && differs_at(world, #[trigger] turn(start, p));
                        assert(differs_at(b.0, turn(start, p)));
                    }
                    if differs {
                        assert(differs_at(b.0, turn(start, at)));
                    }
                    if outdated(b.0, start, at + 1) {
                        let p = choose|p: int|
                            0 <= p < at + 1 && differs_at(b.0, #[trigger] turn(start, p));
                        assert(differs_at(world, turn(start, p)));
                    }
                }
                placements_are_compared(
                    b.0,
                    start,
                    logical_model,
                    explicit,
                    placements,
                    at + 1,
                    more,
                    changed || differs,
                );
                join(world, b.0, after, any_call());
                if let Ok(compared) = compared {
                    assert(selects_at(
                        b.0,
                        first + 2,
                        placement.node_id,
                        logical_model,
                        explicit,
                        candidate.0,
                    ));
                    assert(after.calls[first] == b.0.calls[first]);
                    assert(after.calls[first + 1] == b.0.calls[first + 1]);
                    assert(after.calls[first + 2] == b.0.calls[first + 2]);
                    assert(selects_at(
                        after,
                        first + 2,
                        placement.node_id,
                        logical_model,
                        explicit,
                        candidate.0,
                    ));
                    assert(compares_at(after, turn(start, at), logical_model, explicit, placement));
                    let count = placements.len() as int;
                    assert(outdated(world, start, count) <==> outdated(b.0, start, count)) by {
                        if outdated(world, start, count) {
                            let p = choose|p: int|
                                0 <= p < count && differs_at(world, #[trigger] turn(start, p));
                            assert(differs_at(b.0, turn(start, p)));
                        }
                        if outdated(b.0, start, count) {
                            let p = choose|p: int|
                                0 <= p < count && differs_at(b.0, #[trigger] turn(start, p));
                            assert(differs_at(world, turn(start, p)));
                        }
                    }
                }
            }
        }
    }
}

/// Where the calls of the next group begin.
pub open spec fn next_start(
    from: int,
    starts: Seq<int>,
    records: Seq<PlacementRecordView>,
) -> int {
    if starts.len() == 0 {
        from
    } else {
        turn(starts.last(), records.last().placements.len() as int)
    }
}

/// What an update chose of the first groups: each was read and every placement of it compared, one
/// group after the other, and exactly those with an outdated placement were chosen, in order, each
/// with its nodes, the wanted candidate and the state that it was read in.
pub open spec fn update_chooses(
    world: NodeModelWorld,
    from: int,
    service: ModelServiceView,
    service_id: ModelServiceId,
    explicit: Option<Seq<char>>,
    records: Seq<PlacementRecordView>,
    starts: Seq<int>,
    positions: Seq<int>,
    groups: Seq<NodeModelInstallGroupView>,
    states: Seq<InitialGroupState>,
) -> bool {
    let ids = service.placement_group_ids;
    &&& starts.len() == records.len() <= ids.len()
    &&& forall|k: int|
        0 <= k < records.len() ==> {
            &&& (#[trigger] starts[k]) == next_start(from, starts.take(k), records.take(k))
            &&& from <= starts[k]
            &&& reads_record(world, starts[k], ids[k], records[k])
            &&& records[k].group.service_id == service_id
            &&& records[k].group.state != PlacementGroupState::Removed
        }
    &&& forall|k: int, p: int|
        0 <= k < records.len() && 0 <= p < records[k].placements.len() ==> compares_at(
            world,
            #[trigger] turn(starts[k], p),
            service.logical_model,
            explicit,
            records[k].placements[p],
        )
    &&& chosen_so_far(
        ids,
        records,
        Seq::new(states.len(), |i: int| states[i].placement_group_id),
        states,
        positions,
        |k: int| outdated(world, starts[k], records[k].placements.len() as int),
    )
    &&& groups.len() == positions.len()
    &&& forall|i: int|
        0 <= i < groups.len() ==> runs_on_the_nodes(
            #[trigger] groups[i],
            records[positions[i]],
            explicit,
        )
}

/// A planned group has the nodes of a current one, in order, and the wanted candidate.
pub open spec fn runs_on_the_nodes(
    group: NodeModelInstallGroupView,
    record: PlacementRecordView,
    explicit: Option<Seq<char>>,
) -> bool {
    &&& group.explicit_candidate_id == explicit
    &&& group.node_ids.len() == record.placements.len()
    &&& forall|p: int|
        0 <= p < record.placements.len() ==> #[trigger] group.node_ids[p]
            == record.placements[p].node_id
}

proof fn lemma_update_step(
    world: NodeModelWorld,
    later: NodeModelWorld,
    from: int,
    service: ModelServiceView,
    service_id: ModelServiceId,
    explicit: Option<Seq<char>>,
    records: Seq<PlacementRecordView>,
    starts: Seq<int>,
    positions: Seq<int>,
    groups: Seq<NodeModelInstallGroupView>,
    states: Seq<InitialGroupState>,
    record: PlacementRecordView,
    start: int,
    group: NodeModelInstallGroupView,
) -> (next: Seq<int>)
    requires
        update_chooses(
            world,
            from,
            service,
            service_id,
            explicit,
            records,
            starts,
            positions,
            groups,
            states,
        ),
        records.len() < service.placement_group_ids.len(),
        only(world, later, any_call()),
        0 <= from <= start == next_start(from, starts, records),
        start == world.calls.len(),
        forall|k: int|
            0 <= k < records.len() ==> turn(
                #[trigger] starts[k],
                records[k].placements.len() as int,
            ) <= start,
        reads_record(later, start, service.placement_group_ids[records.len() as int], record),
        record.group.service_id == service_id,
        record.group.state != PlacementGroupState::Removed,
        forall|p: int|
            0 <= p < record.placements.len() ==> compares_at(
                later,
                #[trigger] turn(start, p),
                service.logical_model,
                explicit,
                record.placements[p],
            ),
        runs_on_the_nodes(group, record, explicit),
    ensures
        ({
            let id = service.placement_group_ids[records.len() as int];
            let entry = InitialGroupState {
                placement_group_id: id,
                state: record.group.state,
            };
            let chosen = outdated(later, start, record.placements.len() as int);
            update_chooses(
                later,
                from,
                service,
                service_id,
                explicit,
                records.push(record),
                starts.push(start),
                next,
                if chosen {
                    groups.push(group)
                } else {
                    groups
                },
                if chosen {
                    states.push(entry)
                } else {
                    states
                },
            )
        }),
{
    let ids = service.placement_group_ids;
    let at = records.len() as int;
    let id = ids[at];
    let entry = InitialGroupState { placement_group_id: id, state: record.group.state };
    let all = records.push(record);
    let begun = starts.push(start);
    let before = |k: int| outdated(world, starts[k], records[k].placements.len() as int);
    let wanted = |k: int| outdated(later, begun[k], all[k].placements.len() as int);
    let chosen_ids = Seq::new(states.len(), |i: int| states[i].placement_group_id);
    assert forall|k: int| 0 <= k < at implies (#[trigger] before(k) <==> wanted(k)) by {
        let count = records[k].placements.len() as int;
        if before(k) {
            let p = choose|p: int| 0 <= p < count && differs_at(world, #[trigger] turn(starts[k], p));
            assert(differs_at(later, turn(starts[k], p)));
        }
        if wanted(k) {
            let p = choose|p: int| 0 <= p < count && differs_at(later, #[trigger] turn(starts[k], p));
            assert(differs_at(world, turn(starts[k], p)));
        }
    }
    assert(chosen_so_far(ids, records, chosen_ids, states, positions, wanted)) by {
        assert forall|k: int| 0 <= k < records.len() implies (
        #[trigger] positions.contains(k) <==> wanted(k)) by {
            assert(positions.contains(k) <==> before(k));
        }
    }
    lemma_chosen_step(ids, records, record, chosen_ids, states, positions, wanted);
    let chosen = wanted(at);
    let next = if chosen {
        positions.push(at)
    } else {
        positions
    };
    let next_states = if chosen {
        states.push(entry)
    } else {
        states
    };
    let next_groups = if chosen {
        groups.push(group)
    } else {
        groups
    };
    let next_ids = Seq::new(next_states.len(), |i: int| next_states[i].placement_group_id);
    assert(next_ids =~= if chosen {
        chosen_ids.push(id)
    } else {
        chosen_ids
    });
    assert forall|k: int| 0 <= k < all.len() implies {
        &&& (#[trigger] begun[k]) == next_start(from, begun.take(k), all.take(k))
        &&& from <= begun[k]
        &&& reads_record(later, begun[k], ids[k], all[k])
        &&& all[k].group.service_id == service_id
        &&& all[k].group.state != PlacementGroupState::Removed
    } by {
        if k < at {
            assert(begun[k] == starts[k]);
            assert(begun.take(k) =~= starts.take(k));
            assert(all.take(k) =~= records.take(k));
            assert(later.calls[starts[k]] == world.calls[starts[k]]);
        } else {
            assert(begun.take(k) =~= starts);
            assert(all.take(k) =~= records);
        }
    }
    assert forall|k: int, p: int|
        0 <= k < all.len() && 0 <= p < all[k].placements.len() implies compares_at(
        later,
        #[trigger] turn(begun[k], p),
        service.logical_model,
        explicit,
        all[k].placements[p],
    ) by {
        if k < at {
            let first = turn(starts[k], p);
            assert(compares_at(
                world,
                turn(starts[k], p),
                service.logical_model,
                explicit,
                records[k].placements[p],
            ));
            let candidate = choose|candidate: RuntimeCandidateView| #[trigger]
                selects_at(
                    world,
                    first + 2,
                    records[k].placements[p].node_id,
                    service.logical_model,
                    explicit,
                    candidate,
                );
            assert(later.calls[first] == world.calls[first]);
            assert(later.calls[first + 1] == world.calls[first + 1]);
            assert(later.calls[first + 2] == world.calls[first + 2]);
            assert(selects_at(
                later,
                first + 2,
                records[k].placements[p].node_id,
                service.logical_model,
                explicit,
                candidate,
            ));
        }
    }
    assert forall|i: int| 0 <= i < next_groups.len() implies runs_on_the_nodes(
        #[trigger] next_groups[i],
        all[next[i]],
        explicit,
    ) by {
        if i < groups.len() {
            assert(runs_on_the_nodes(groups[i], records[positions[i]], explicit));
            assert(all[positions[i]] == records[positions[i]]);
        }
    }
    next
}

/// Every group was read, and an update chose among them.
pub open spec fn update_is_read(
    world: NodeModelWorld,
    from: int,
    service_id: ModelServiceId,
    explicit: Option<Seq<char>>,
    plan: UpdatePlanView,
) -> bool {
    exists|records: Seq<PlacementRecordView>, starts: Seq<int>, positions: Seq<int>|
        records.len() == plan.service.placement_group_ids.len() && #[trigger] update_chooses(
            world,
            from,
            plan.service,
            service_id,
            explicit,
            records,
            starts,
            positions,
            plan.groups,
            plan.states,
        )
}

proof fn update_is_chosen(
    world: NodeModelWorld,
    from: int,
    service: ModelServiceView,
    service_id: ModelServiceId,
    explicit: Option<Seq<char>>,
    records: Seq<PlacementRecordView>,
    starts: Seq<int>,
    positions: Seq<int>,
    groups: Seq<NodeModelInstallGroupView>,
    states: Seq<InitialGroupState>,
)
    requires
        update_chooses(
            world,
            from,
            service,
            service_id,
            explicit,
            records,
            starts,
            positions,
            groups,
            states,
        ),
        0 <= from,
        world.calls.len() == next_start(from, starts, records),
        forall|k: int|
            0 <= k < records.len() ==> turn(
                #[trigger] starts[k],
                records[k].placements.len() as int,
            ) <= world.calls.len(),
    ensures
        ({
            let (after, planned) = groups_compared(
                world,
                service,
                service_id,
                explicit,
                records.len() as int,
                groups,
                states,
            );
            &&& only(world, after, any_call())
            &&& planned matches Ok(plan) ==> plan.service == service && update_is_read(
                after,
                from,
                service_id,
                explicit,
                plan,
            )
        }),
    decreases service.placement_group_ids.len() - records.len(),
{
    let at = records.len() as int;
    let ids = service.placement_group_ids;
    let (after, planned) = groups_compared(
        world,
        service,
        service_id,
        explicit,
        at,
        groups,
        states,
    );
    if at < ids.len() {
        let start = world.calls.len() as int;
        let a = required(from_placement(world.group_record(ids[at])));
        if let Ok(record) = a.1 {
            if record.group.service_id == service_id && record.group.state
                != PlacementGroupState::Removed {
                assert(!outdated(a.0, start, 0));
                placements_are_compared(
                    a.0,
                    start,
                    service.logical_model,
                    explicit,
                    record.placements,
                    0,
                    Seq::empty(),
                    false,
                );
                let b = placements_compared(
                    a.0,
                    service.logical_model,
                    explicit,
                    record.placements,
                    0,
                    Seq::empty(),
                    false,
                );
                join(world, a.0, b.0, any_call());
                if let Ok(compared) = b.1 {
                    let count = record.placements.len() as int;
                    let group = NodeModelInstallGroupView {
                        node_ids: compared.0,
                        explicit_candidate_id: explicit,
                    };
                    assert(b.0.calls[start] == a.0.calls[start]);
                    assert(outdated(a.0, start, count) <==> outdated(b.0, start, count)) by {
                        if outdated(a.0, start, count) {
                            let p = choose|p: int|
                                0 <= p < count && differs_at(a.0, #[trigger] turn(start, p));
                            assert(differs_at(b.0, turn(start, p)));
                        }
                        if outdated(b.0, start, count) {
                            let p = choose|p: int|
                                0 <= p < count && differs_at(b.0, #[trigger] turn(start, p));
                            assert(differs_at(a.0, turn(start, p)));
                        }
                    }
                    if !compared.1 || install_group(compared.0, explicit) is Ok {
                        let next = lemma_update_step(
                            world,
                            b.0,
                            from,
                            service,
                            service_id,
                            explicit,
                            records,
                            starts,
                            positions,
                            groups,
                            states,
                            record,
                            start,
                            group,
                        );
                        let entry = InitialGroupState {
                            placement_group_id: ids[at],
                            state: record.group.state,
                        };
                        let all = records.push(record);
                        let begun = starts.push(start);
                        let next_groups = if compared.1 {
                            groups.push(group)
                        } else {
                            groups
                        };
                        let next_states = if compared.1 {
                            states.push(entry)
                        } else {
                            states
                        };
                        assert forall|k: int| 0 <= k < all.len() implies turn(
                            #[trigger] begun[k],
                            all[k].placements.len() as int,
                        ) <= b.0.calls.len() by {
                            if k < at {
                                assert(begun[k] == starts[k]);
                            }
                        }
                        assert(begun.last() == start && all.last() == record);
                        update_is_chosen(
                            b.0,
                            from,
                            service,
                            service_id,
                            explicit,
                            all,
                            begun,
                            next,
                            next_groups,
                            next_states,
                        );
                        join(world, b.0, after, any_call());
                    }
                }
            }
        }
    } else {
        if let Ok(plan) = planned {
            assert(update_chooses(
                after,
                from,
                plan.service,
                service_id,
                explicit,
                records,
                starts,
                positions,
                plan.groups,
                plan.states,
            ));
        }
    }
}

/// An update plans exactly the groups of its service with an outdated placement, each on its own
/// nodes with the wanted candidate, and takes down the state that each was read in. A group of which
/// every placement already runs the candidate selected for it is left out.
pub proof fn law_update_plan_holds_exactly_the_outdated_groups(
    world: NodeModelWorld,
    service_id: ModelServiceId,
    explicit: Option<Seq<char>>,
)
    ensures
        update_planned(world, service_id, explicit).1 matches Ok(plan) ==> {
            let from = world.calls.len();
            &&& update_planned(world, service_id, explicit).0.calls[from as int] == (
            NodeModelCall::Service { service_id })
            &&& (world.script.service)(from) matches Ok(read)
            &&& read.service == plan.service
            &&& plan.service.desired_state != ModelServiceDesiredState::Removed
            &&& update_is_read(
                update_planned(world, service_id, explicit).0,
                from as int + 1,
                service_id,
                explicit,
                plan,
            )
        },
{
    let (after, planned) = update_planned(world, service_id, explicit);
    let from = world.calls.len() as int;
    if let Ok(plan) = planned {
        let a = redacted(world.service(service_id));
        let service = a.1->Ok_0.service;
        let none = Seq::<int>::empty();
        let records = Seq::<PlacementRecordView>::empty();
        let groups = Seq::<NodeModelInstallGroupView>::empty();
        let states = Seq::<InitialGroupState>::empty();
        assert(chosen_so_far(
            service.placement_group_ids,
            records,
            Seq::new(states.len(), |i: int| states[i].placement_group_id),
            states,
            none,
            |k: int| outdated(a.0, none[k], records[k].placements.len() as int),
        ));
        update_is_chosen(
            a.0,
            from + 1,
            service,
            service_id,
            explicit,
            records,
            none,
            none,
            groups,
            states,
        );
        assert(after.calls[from] == a.0.calls[from]);
    }
}

} // verus!
