//! What a model command that succeeded has brought about, as its calls and their replies show it.

use vstd::prelude::*;

use crate::entity::{ModelServiceDesiredState, PlacementGroupState};
use crate::identity::{law_sorted_ids, sorted_ids, ModelServiceId, PlacementGroupId};
use crate::node_model_contract::{NodeModelAction, NodeModelJournalView};
use crate::node_model_execution::{existing_executed, recovered_and_running};
use crate::node_model_groups::{
    all_recovered, all_stopped, all_stopped_reversed, group_recovered, group_stopped,
    service_in_state,
};
use crate::node_model_laws::{join, only};
use crate::node_model_traces::{
    any_call, carry_at_rest, carry_running, ends_at_rest, ends_intending, ends_running,
    lemma_widened, moves, recovers, rests_at, runs_at, step_intending, step_recovered,
    step_stopped, Calls,
};
use crate::node_model_world::{NodeModelCall, NodeModelWorld};

verus! {

// ---------------------------------------------------------------------------
// Every group of a list
// ---------------------------------------------------------------------------

pub(crate) proof fn lemma_sorted_members(groups: Seq<PlacementGroupId>)
    ensures
        sorted_ids(groups).len() == groups.len(),
        forall|group: PlacementGroupId| #[trigger]
            sorted_ids(groups).contains(group) <==> groups.contains(group),
{
    broadcast use vstd::seq_lib::group_to_multiset_ensures;

    law_sorted_ids(groups);
    let sorted = sorted_ids(groups);
    assert forall|group: PlacementGroupId| #[trigger] sorted.contains(group) <==> groups.contains(
        group,
    ) by {
        assert(sorted.contains(group) <==> sorted.to_multiset().contains(group));
        assert(groups.contains(group) <==> groups.to_multiset().contains(group));
    }
}

pub(crate) proof fn lemma_running_from(
    world: NodeModelWorld,
    late: nat,
    early: nat,
    group: PlacementGroupId,
)
    requires
        ends_running(world, late, group),
        early <= late,
    ensures
        ends_running(world, early, group),
{
    let at = choose|at: int|
        late <= at < world.calls.len() && #[trigger] runs_at(world, at, group) && forall|next: int|
            at < next < world.calls.len() ==> #[trigger] world.calls[next]
                != (NodeModelCall::StopGroup { placement_group_id: group }) && world.calls[next]
                != (NodeModelCall::RemoveGroup { placement_group_id: group });
    assert(runs_at(world, at, group));
}

pub(crate) proof fn lemma_at_rest_from(
    world: NodeModelWorld,
    late: nat,
    early: nat,
    group: PlacementGroupId,
)
    requires
        ends_at_rest(world, late, group),
        early <= late,
    ensures
        ends_at_rest(world, early, group),
{
    let at = choose|at: int|
        late <= at < world.calls.len() && #[trigger] rests_at(world, at, group) && forall|next: int|
            at < next < world.calls.len() ==> #[trigger] world.calls[next]
                != (NodeModelCall::StartGroup { placement_group_id: group }) && !recovers(
                world.calls[next],
                group,
            );
    assert(rests_at(world, at, group));
}

/// The calls that may stop the groups of a list, beside those that change nothing.
pub open spec fn stops_of(groups: Seq<PlacementGroupId>) -> Calls {
    |call: NodeModelCall|
        !call.mutates() || (call matches NodeModelCall::StopGroup { placement_group_id }
            && groups.contains(placement_group_id))
}

/// The calls that may start or recover the groups of a list, beside those that change nothing.
pub open spec fn starts_of(groups: Seq<PlacementGroupId>, acknowledge: bool) -> Calls {
    |call: NodeModelCall|
        !call.mutates() || (call matches NodeModelCall::StartGroup { placement_group_id }
            && groups.contains(placement_group_id)) || (
        call matches NodeModelCall::RecoverGroup {
            placement_group_id,
            acknowledge_protection_trips,
        } && groups.contains(placement_group_id) && acknowledge_protection_trips == acknowledge)
}

/// The calls that may move one service to one state, beside those that change nothing.
pub open spec fn moves_to(service: ModelServiceId, state: ModelServiceDesiredState) -> Calls {
    |call: NodeModelCall| !call.mutates() || moves(call, service, state)
}

proof fn every_stopped(world: NodeModelWorld, groups: Seq<PlacementGroupId>, at: int)
    requires
        0 <= at <= groups.len(),
    ensures
        only(world, all_stopped(world, groups, at).0, stops_of(groups)),
        all_stopped(world, groups, at).1 is Ok ==> forall|k: int|
            at <= k < groups.len() ==> ends_at_rest(
                all_stopped(world, groups, at).0,
                world.calls.len(),
                #[trigger] groups[k],
            ),
    decreases groups.len() - at,
{
    if at < groups.len() {
        assert(groups.contains(groups[at]));
        step_stopped(world, groups[at], stops_of(groups));
        let (next, result) = group_stopped(world, groups[at]);
        if result is Ok {
            every_stopped(next, groups, at + 1);
            let (after, all) = all_stopped(next, groups, at + 1);
            join(world, next, after, stops_of(groups));
            if all is Ok {
                carry_at_rest(next, after, world.calls.len(), groups[at], stops_of(groups));
                assert forall|k: int| at <= k < groups.len() implies ends_at_rest(
                    after,
                    world.calls.len(),
                    #[trigger] groups[k],
                ) by {
                    if k > at {
                        lemma_at_rest_from(
                            after,
                            next.calls.len(),
                            world.calls.len(),
                            groups[k],
                        );
                    }
                }
            }
        }
    }
}

/// From one position on a group is first read at some call. Unless it is found stopped or removed,
/// it is stopped by the next call.
pub open spec fn first_read_is_stopped(
    world: NodeModelWorld,
    from: nat,
    to: nat,
    group: PlacementGroupId,
) -> bool {
    exists|at: int|
        from <= at < to && #[trigger] first_read(world, from, at, group) && stopped_unless_at_rest(
            world,
            at,
            to,
            group,
        )
}

/// A group that one call reads is stopped by the next, unless it is found stopped or removed.
pub open spec fn stopped_unless_at_rest(
    world: NodeModelWorld,
    at: int,
    to: nat,
    group: PlacementGroupId,
) -> bool {
    &&& (world.script.group_record)(at as nat) matches Ok(Some(record))
    &&& {
        ||| record.group.state == PlacementGroupState::Stopped
        ||| record.group.state == PlacementGroupState::Removed
        ||| at + 1 < to && world.calls[at + 1] == (NodeModelCall::StopGroup {
            placement_group_id: group,
        })
    }
}

/// One call is the first from a position on that reads a group.
pub open spec fn first_read(
    world: NodeModelWorld,
    from: nat,
    at: int,
    group: PlacementGroupId,
) -> bool {
    &&& world.calls[at] == (NodeModelCall::GroupRecord { placement_group_id: group })
    &&& forall|i: int|
        from <= i < at ==> #[trigger] world.calls[i] != (NodeModelCall::GroupRecord {
            placement_group_id: group,
        })
}

pub(crate) proof fn every_stopped_reversed(world: NodeModelWorld, groups: Seq<PlacementGroupId>, left: int)
    requires
        0 <= left <= groups.len(),
    ensures
        only(world, all_stopped_reversed(world, groups, left).0, stops_of(groups)),
        all_stopped_reversed(world, groups, left).1 is Ok ==> forall|k: int|
            0 <= k < left ==> {
                let after = all_stopped_reversed(world, groups, left).0;
                &&& ends_at_rest(after, world.calls.len(), #[trigger] groups[k])
                &&& first_read_is_stopped(
                    after,
                    world.calls.len(),
                    after.calls.len(),
                    groups[k],
                )
            },
    decreases left,
{
    if left > 0 {
        let group = groups[left - 1];
        let from = world.calls.len();
        assert(groups.contains(group));
        step_stopped(world, group, stops_of(groups));
        let (next, result) = group_stopped(world, group);
        if result is Ok {
            every_stopped_reversed(next, groups, left - 1);
            let (after, all) = all_stopped_reversed(next, groups, left - 1);
            join(world, next, after, stops_of(groups));
            if all is Ok {
                carry_at_rest(next, after, from, group, stops_of(groups));
                assert(next.calls[from as int] == (NodeModelCall::GroupRecord {
                    placement_group_id: group,
                }));
                assert(after.calls[from as int] == next.calls[from as int]);
                if next.calls.len() > from + 1 {
                    assert(after.calls[from as int + 1] == next.calls[from as int + 1]);
                }
                assert(first_read(after, from, from as int, group));
                assert forall|k: int| 0 <= k < left implies ends_at_rest(
                    after,
                    from,
                    #[trigger] groups[k],
                ) && first_read_is_stopped(after, from, after.calls.len(), groups[k]) by {
                    if k < left - 1 {
                        lemma_at_rest_from(after, next.calls.len(), from, groups[k]);
                        if groups[k] != group {
                            let at = choose|at: int|
                                next.calls.len() <= at < after.calls.len() && #[trigger] first_read(
                                    after,
                                    next.calls.len(),
                                    at,
                                    groups[k],
                                ) && stopped_unless_at_rest(
                                    after,
                                    at,
                                    after.calls.len(),
                                    groups[k],
                                );
                            assert forall|i: int| from <= i < at implies #[trigger] after.calls[i]
                                != (NodeModelCall::GroupRecord { placement_group_id: groups[k] }) by {
                                if i < next.calls.len() {
                                    assert(after.calls[i] == next.calls[i]);
                                }
                            }
                            assert(first_read(after, from, at, groups[k]));
                        }
                    }
                }
            }
        }
    }
}

proof fn every_recovered(
    world: NodeModelWorld,
    groups: Seq<PlacementGroupId>,
    acknowledge: bool,
    at: int,
)
    requires
        0 <= at <= groups.len(),
    ensures
        only(
            world,
            all_recovered(world, groups, acknowledge, at).0,
            starts_of(groups, acknowledge),
        ),
        all_recovered(world, groups, acknowledge, at).1 is Ok ==> forall|k: int|
            at <= k < groups.len() ==> ends_running(
                all_recovered(world, groups, acknowledge, at).0,
                world.calls.len(),
                #[trigger] groups[k],
            ),
    decreases groups.len() - at,
{
    let allowed = starts_of(groups, acknowledge);
    if at < groups.len() {
        assert(groups.contains(groups[at]));
        step_recovered(world, groups[at], acknowledge, allowed);
        let (next, result) = group_recovered(world, groups[at], acknowledge);
        if result is Ok {
            every_recovered(next, groups, acknowledge, at + 1);
            let (after, all) = all_recovered(next, groups, acknowledge, at + 1);
            join(world, next, after, allowed);
            if all is Ok {
                carry_running(next, after, world.calls.len(), groups[at], allowed);
                assert forall|k: int| at <= k < groups.len() implies ends_running(
                    after,
                    world.calls.len(),
                    #[trigger] groups[k],
                ) by {
                    if k > at {
                        lemma_running_from(
                            after,
                            next.calls.len(),
                            world.calls.len(),
                            groups[k],
                        );
                    }
                }
            }
        }
    }
}

// ---------------------------------------------------------------------------
// Pause, resume, restart and recover
// ---------------------------------------------------------------------------

/// A pause that succeeded leaves every group of its journal at rest and the service stopped; it
/// stops no other group, starts none, and moves the service nowhere else.
pub proof fn law_pause_stops_every_group(world: NodeModelWorld, journal: NodeModelJournalView)
    requires
        journal.action == NodeModelAction::Pause,
    ensures
        ({
            let groups = journal.placement_group_ids;
            let (after, result) = existing_executed(world, journal);
            &&& only(
                world,
                after,
                |call: NodeModelCall|
                    stops_of(groups)(call) || moves(
                        call,
                        journal.service_id,
                        ModelServiceDesiredState::Stopped,
                    ),
            )
            &&& result is Ok ==> {
                &&& forall|k: int|
                    0 <= k < groups.len() ==> ends_at_rest(
                        after,
                        world.calls.len(),
                        #[trigger] groups[k],
                    )
                &&& ends_intending(
                    after,
                    world.calls.len(),
                    journal.service_id,
                    ModelServiceDesiredState::Stopped,
                )
            }
        }),
{
    let groups = journal.placement_group_ids;
    let sorted = sorted_ids(groups);
    let service = journal.service_id;
    let state = ModelServiceDesiredState::Stopped;
    let wide = |call: NodeModelCall| stops_of(groups)(call) || moves(call, service, state);
    lemma_sorted_members(groups);
    every_stopped(world, sorted, 0);
    let (next, stopped) = all_stopped(world, sorted, 0);
    lemma_widened(world, next, stops_of(sorted), wide);
    let name = "service.transition"@;
    let (after, result) = service_in_state(next, journal, name, state);
    step_intending(next, journal, name, state, moves_to(service, state));
    lemma_widened(next, after, moves_to(service, state), wide);
    join(world, next, after, wide);
    if stopped is Ok && result is Ok {
        assert forall|k: int| 0 <= k < groups.len() implies ends_at_rest(
            after,
            world.calls.len(),
            #[trigger] groups[k],
        ) by {
            assert(sorted.contains(groups[k]));
            let m = choose|m: int| 0 <= m < sorted.len() && sorted[m] == groups[k];
            assert(ends_at_rest(next, world.calls.len(), sorted[m]));
            carry_at_rest(
                next,
                after,
                world.calls.len(),
                groups[k],
                moves_to(service, state),
            );
        }
        lemma_intending_from(after, next.calls.len(), world.calls.len(), service, state);
    }
}

pub(crate) proof fn lemma_intending_from(
    world: NodeModelWorld,
    late: nat,
    early: nat,
    service: ModelServiceId,
    state: ModelServiceDesiredState,
)
    requires
        ends_intending(world, late, service, state),
        early <= late,
    ensures
        ends_intending(world, early, service, state),
{
    let at = choose|at: int|
        late <= at < world.calls.len() && #[trigger] crate::node_model_traces::intends_at(
            world,
            at,
            service,
            state,
        ) && forall|next: int|
            at < next < world.calls.len() ==> !(#[trigger] world.calls[next] is TransitionService);
    assert(crate::node_model_traces::intends_at(world, at, service, state));
}

/// Groups that are brought back to running: every one ends running and the service too; no other
/// group is started or recovered, none is stopped, and protection trips are acknowledged exactly as
/// asked.
pub open spec fn brought_back(
    world: NodeModelWorld,
    after: NodeModelWorld,
    journal: NodeModelJournalView,
    acknowledge: bool,
    succeeded: bool,
) -> bool {
    let groups = journal.placement_group_ids;
    &&& only(
        world,
        after,
        |call: NodeModelCall|
            starts_of(groups, acknowledge)(call) || moves(
                call,
                journal.service_id,
                ModelServiceDesiredState::Running,
            ),
    )
    &&& succeeded ==> {
        &&& forall|k: int|
            0 <= k < groups.len() ==> ends_running(after, world.calls.len(), #[trigger] groups[k])
        &&& ends_intending(
            after,
            world.calls.len(),
            journal.service_id,
            ModelServiceDesiredState::Running,
        )
    }
}

pub(crate) proof fn lemma_brought_back(
    world: NodeModelWorld,
    journal: NodeModelJournalView,
    acknowledge: bool,
)
    ensures
        ({
            let sorted = sorted_ids(journal.placement_group_ids);
            let (after, result) = recovered_and_running(world, journal, sorted, acknowledge);
            brought_back(world, after, journal, acknowledge, result is Ok)
        }),
{
    let groups = journal.placement_group_ids;
    let sorted = sorted_ids(groups);
    let service = journal.service_id;
    let state = ModelServiceDesiredState::Running;
    let wide = |call: NodeModelCall|
        starts_of(groups, acknowledge)(call) || moves(call, service, state);
    lemma_sorted_members(groups);
    every_recovered(world, sorted, acknowledge, 0);
    let (next, recovered) = all_recovered(world, sorted, acknowledge, 0);
    lemma_widened(world, next, starts_of(sorted, acknowledge), wide);
    let name = "service.transition"@;
    let (after, result) = service_in_state(next, journal, name, state);
    step_intending(next, journal, name, state, moves_to(service, state));
    lemma_widened(next, after, moves_to(service, state), wide);
    join(world, next, after, wide);
    if recovered is Ok && result is Ok {
        assert forall|k: int| 0 <= k < groups.len() implies ends_running(
            after,
            world.calls.len(),
            #[trigger] groups[k],
        ) by {
            assert(sorted.contains(groups[k]));
            let m = choose|m: int| 0 <= m < sorted.len() && sorted[m] == groups[k];
            assert(ends_running(next, world.calls.len(), sorted[m]));
            carry_running(
                next,
                after,
                world.calls.len(),
                groups[k],
                moves_to(service, state),
            );
        }
        lemma_intending_from(after, next.calls.len(), world.calls.len(), service, state);
    }
}

/// A resume that succeeded leaves every group of its journal running and the service running; it
/// stops nothing and acknowledges no protection trip.
pub proof fn law_resume_runs_every_group(world: NodeModelWorld, journal: NodeModelJournalView)
    requires
        journal.action == NodeModelAction::Resume,
    ensures
        brought_back(
            world,
            existing_executed(world, journal).0,
            journal,
            false,
            existing_executed(world, journal).1 is Ok,
        ),
{
    lemma_brought_back(world, journal, false);
}

/// A recovery that succeeded leaves every group of its journal running and the service running; it
/// stops nothing and acknowledges protection trips.
pub proof fn law_recover_runs_every_group(world: NodeModelWorld, journal: NodeModelJournalView)
    requires
        journal.action == NodeModelAction::Recover,
    ensures
        brought_back(
            world,
            existing_executed(world, journal).0,
            journal,
            true,
            existing_executed(world, journal).1 is Ok,
        ),
{
    lemma_brought_back(world, journal, true);
}

/// A restart that succeeded falls in two parts. Before the split every group of its journal is
/// shown at rest, each that is first read in any state but stopped or removed by being stopped, and
/// nothing is started or recovered. After the split nothing is stopped, every group ends running,
/// and so does the service.
pub proof fn law_restart_stops_then_runs_every_group(
    world: NodeModelWorld,
    journal: NodeModelJournalView,
)
    requires
        journal.action == NodeModelAction::Restart,
        existing_executed(world, journal).1 is Ok,
    ensures
        ({
            let groups = journal.placement_group_ids;
            let from = world.calls.len();
            let after = existing_executed(world, journal).0;
            exists|split: nat| #[trigger]
                restart_split(world, after, split, groups) && ends_intending(
                    after,
                    split,
                    journal.service_id,
                    ModelServiceDesiredState::Running,
                )
        }),
{
    let groups = journal.placement_group_ids;
    let sorted = sorted_ids(groups);
    let from = world.calls.len();
    lemma_sorted_members(groups);
    every_stopped_reversed(world, sorted, sorted.len() as int);
    let (middle, stopped) = all_stopped_reversed(world, sorted, sorted.len() as int);
    let after = existing_executed(world, journal).0;
    let split = middle.calls.len();
    lemma_brought_back(middle, journal, false);
    let back = |call: NodeModelCall|
        starts_of(groups, false)(call) || moves(
            call,
            journal.service_id,
            ModelServiceDesiredState::Running,
        );
    assert(only(middle, after, back));
    lemma_widened(world, middle, stops_of(sorted), any_call());
    lemma_widened(middle, after, back, any_call());
    join(world, middle, after, any_call());
    assert forall|k: int| 0 <= k < groups.len() implies ends_running(
        after,
        split,
        #[trigger] groups[k],
    ) && first_read_is_stopped(after, from, split, groups[k]) && rested_between(
        after,
        from,
        split,
        groups[k],
    ) by {
        let group = groups[k];
        assert(sorted.contains(group));
        let m = choose|m: int| 0 <= m < sorted.len() && sorted[m] == group;
        assert(ends_at_rest(middle, from, sorted[m]));
        assert(first_read_is_stopped(middle, from, split, sorted[m]));
        let at = choose|at: int|
            from <= at < split && #[trigger] first_read(middle, from, at, group)
                && stopped_unless_at_rest(middle, at, split, group);
        assert(after.calls[at] == middle.calls[at]);
        assert(first_read(after, from, at, group)) by {
            assert forall|i: int| from <= i < at implies #[trigger] after.calls[i] != (
            NodeModelCall::GroupRecord { placement_group_id: group }) by {
                assert(after.calls[i] == middle.calls[i]);
            }
        }
        if at + 1 < split {
            assert(after.calls[at + 1] == middle.calls[at + 1]);
        }
        let rest = choose|rest: int|
            from <= rest < middle.calls.len() && #[trigger] rests_at(middle, rest, group) && forall|
                later: int,
            |
                rest < later < middle.calls.len() ==> #[trigger] middle.calls[later]
                    != (NodeModelCall::StartGroup { placement_group_id: group }) && !recovers(
                    middle.calls[later],
                    group,
                );
        assert(after.calls[rest] == middle.calls[rest]);
        assert(rests_at(after, rest, group));
    }
    assert forall|i: int| from <= i < split implies !(#[trigger] after.calls[i] is StartGroup) && !(
    after.calls[i] is RecoverGroup) by {
        assert(after.calls[i] == middle.calls[i]);
        assert(stops_of(sorted)(middle.calls[i]));
    }
    assert forall|i: int| split <= i < after.calls.len() implies !(
    #[trigger] after.calls[i] is StopGroup) by {
        assert(back(after.calls[i]));
    }
    assert forall|i: int| from <= i < split && #[trigger] after.calls[i] is StopGroup implies
        groups.contains(after.calls[i]->StopGroup_placement_group_id) by {
        assert(after.calls[i] == middle.calls[i]);
        assert(stops_of(sorted)(middle.calls[i]));
    }
    assert(restart_split(world, after, split, groups));
}

/// Between two positions a group is shown at rest.
pub open spec fn rested_between(
    world: NodeModelWorld,
    from: nat,
    to: nat,
    group: PlacementGroupId,
) -> bool {
    exists|at: int| from <= at < to && #[trigger] rests_at(world, at, group)
}

/// The two parts of one restart.
pub open spec fn restart_split(
    world: NodeModelWorld,
    after: NodeModelWorld,
    split: nat,
    groups: Seq<PlacementGroupId>,
) -> bool {
    let from = world.calls.len();
    &&& from <= split <= after.calls.len()
    &&& forall|k: int|
        0 <= k < groups.len() ==> {
            &&& first_read_is_stopped(after, from, split, #[trigger] groups[k])
            &&& rested_between(after, from, split, groups[k])
            &&& ends_running(after, split, groups[k])
        }
    &&& forall|i: int|
        from <= i < split ==> !(#[trigger] after.calls[i] is StartGroup) && !(after.calls[i]
            is RecoverGroup)
    &&& forall|i: int|
        from <= i < split && #[trigger] after.calls[i] is StopGroup ==> groups.contains(
            after.calls[i]->StopGroup_placement_group_id,
        )
    &&& forall|i: int| split <= i < after.calls.len() ==> !(#[trigger] after.calls[i] is StopGroup)
}

} // verus!
